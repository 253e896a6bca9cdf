//! Catalog record model: typed projections of one fetched catalog page —
//! a flat post list for gallery and feed pages, nested per-artist previews
//! for user-listing pages — with pure accessors over them.

use vstd::prelude::*;

verus! {

/// The three thumbnail sizes a post record carries a URL for.
#[derive(Clone, Copy)]
pub enum ImageSize {
    SquareMedium,
    Medium,
    Large,
}

/// The URLs of one image at each size.
pub struct ImageUrls {
    pub square_medium: String,
    pub medium: String,
    pub large: String,
}

/// One post of a gallery or feed page.
pub struct PostRecord {
    pub post_id: String,
    pub title: String,
    pub user_id: String,
    pub image_urls: ImageUrls,
    /// One entry per sub-page of a multi-page post; empty for single-page
    /// posts.
    pub meta_pages: Vec<ImageUrls>,
}

/// One page of a gallery or feed: its posts in catalog order and the
/// pagination continuation URL, absent on the last page.
pub struct GalleryPage {
    pub illusts: Vec<PostRecord>,
    pub next_url: Option<String>,
}

/// One followed artist on a user-listing page: identity, avatar, and the
/// artist's recent-work thumbnails in preview order.
pub struct UserPreview {
    pub user_id: String,
    pub user_name: String,
    pub profile_pic_url: String,
    pub work_urls: Vec<String>,
}

/// One page of a user listing: followed artists in listing order and the
/// pagination continuation URL.
pub struct UserPage {
    pub previews: Vec<UserPreview>,
    pub next_url: Option<String>,
}

/// The URL of the record at the requested size.
pub open spec fn spec_url_given_size(urls: ImageUrls, size: ImageSize) -> Seq<char> {
    match size {
        ImageSize::SquareMedium => urls.square_medium@,
        ImageSize::Medium => urls.medium@,
        ImageSize::Large => urls.large@,
    }
}

/// Number of sub-pages of a post: the length of its sub-page list, or one
/// for a single-page post.
pub open spec fn spec_page_count(post: PostRecord) -> int {
    if post.meta_pages@.len() > 1 {
        post.meta_pages@.len() as int
    } else {
        1
    }
}

/// Picks the URL of the requested size out of an image record.
pub fn url_given_size(urls: &ImageUrls, size: ImageSize) -> (r: String)
    ensures
        r@ == spec_url_given_size(*urls, size),
{
    match size {
        ImageSize::SquareMedium => urls.square_medium.clone(),
        ImageSize::Medium => urls.medium.clone(),
        ImageSize::Large => urls.large.clone(),
    }
}

/// Title of the post at the given position of a page.
pub fn post_title(page_illusts: &Vec<PostRecord>, post_number: usize) -> (r: String)
    requires
        post_number < page_illusts@.len(),
    ensures
        r@ == page_illusts@[post_number as int].title@,
{
    page_illusts[post_number].title.clone()
}

/// Square-medium thumbnail URL of every post of a page, in catalog order.
pub fn medium_urls(page_illusts: &Vec<PostRecord>) -> (r: Vec<String>)
    ensures
        r@.len() == page_illusts@.len(),
        forall|i: int|
            0 <= i < r@.len() ==> r@[i]@ == page_illusts@[i].image_urls.square_medium@,
{
    let mut r: Vec<String> = Vec::new();
    let mut i: usize = 0;
    while i < page_illusts.len()
        invariant
            0 <= i <= page_illusts@.len(),
            r@.len() == i as int,
            forall|k: int|
                0 <= k < i ==> r@[k]@ == page_illusts@[k].image_urls.square_medium@,
        decreases page_illusts@.len() - i,
    {
        r.push(page_illusts[i].image_urls.square_medium.clone());
        i = i + 1;
    }
    r
}

/// Title of every post of a page, in catalog order.
pub fn post_titles_in_page(page_illusts: &Vec<PostRecord>) -> (r: Vec<String>)
    ensures
        r@.len() == page_illusts@.len(),
        forall|i: int| 0 <= i < r@.len() ==> r@[i]@ == page_illusts@[i].title@,
{
    let mut r: Vec<String> = Vec::new();
    let mut i: usize = 0;
    while i < page_illusts.len()
        invariant
            0 <= i <= page_illusts@.len(),
            r@.len() == i as int,
            forall|k: int| 0 <= k < i ==> r@[k]@ == page_illusts@[k].title@,
        decreases page_illusts@.len() - i,
    {
        r.push(page_illusts[i].title.clone());
        i = i + 1;
    }
    r
}

/// URL of every sub-page of a post at the requested size: the sub-page
/// list for a multi-page post, the post's own URL otherwise.
pub fn page_urls_in_post(post: &PostRecord, size: ImageSize) -> (r: Vec<String>)
    ensures
        r@.len() == spec_page_count(*post),
        post.meta_pages@.len() > 1 ==> forall|i: int|
            0 <= i < r@.len() ==> r@[i]@ == spec_url_given_size(post.meta_pages@[i], size),
        post.meta_pages@.len() <= 1 ==> r@.len() == 1 && r@[0]@ == spec_url_given_size(
            post.image_urls,
            size,
        ),
{
    if post.meta_pages.len() > 1 {
        let mut r: Vec<String> = Vec::new();
        let mut i: usize = 0;
        while i < post.meta_pages.len()
            invariant
                0 <= i <= post.meta_pages@.len(),
                r@.len() == i as int,
                forall|k: int|
                    0 <= k < i ==> r@[k]@ == spec_url_given_size(post.meta_pages@[k], size),
        decreases post.meta_pages@.len() - i,
        {
            let u = url_given_size(&post.meta_pages[i], size);
            r.push(u);
            i = i + 1;
        }
        r
    } else {
        let mut r: Vec<String> = Vec::new();
        r.push(url_given_size(&post.image_urls, size));
        r
    }
}

/// The position and sub-page count of every multi-page post of a page,
/// in catalog order: what the multiple-image report prints.
pub fn multi_page_counts(page_illusts: &Vec<PostRecord>) -> (r: Vec<(usize, usize)>)
    ensures
        r@ == Seq::new(page_illusts@.len(), |i: int| (i as usize, page_illusts@[i])).filter(
            (|e: (usize, PostRecord)| spec_page_count(e.1) > 1),
        ).map_values((|e: (usize, PostRecord)| (e.0, spec_page_count(e.1) as usize))),
{
    let ghost indexed = Seq::new(page_illusts@.len(), |i: int| (i as usize, page_illusts@[i]));
    let ghost pred = |e: (usize, PostRecord)| spec_page_count(e.1) > 1;
    let ghost proj = |e: (usize, PostRecord)| (e.0, spec_page_count(e.1) as usize);
    let mut r: Vec<(usize, usize)> = Vec::new();
    let mut i: usize = 0;
    proof {
        reveal(Seq::filter);
        assert(indexed.take(0) =~= Seq::<(usize, PostRecord)>::empty());
    }
    while i < page_illusts.len()
        invariant
            0 <= i <= page_illusts@.len(),
            indexed == Seq::new(
                page_illusts@.len(),
                |k: int| (k as usize, page_illusts@[k]),
            ),
            pred == (|e: (usize, PostRecord)| spec_page_count(e.1) > 1),
            proj == (|e: (usize, PostRecord)| (e.0, spec_page_count(e.1) as usize)),
            r@ == indexed.take(i as int).filter(pred).map_values(proj),
        decreases page_illusts@.len() - i,
    {
        let count = page_count_of_post(&page_illusts[i]);
        proof {
            reveal(Seq::filter);
            assert(indexed.take(i as int + 1).drop_last() =~= indexed.take(i as int));
            assert(indexed.take(i as int + 1).last() == indexed[i as int]);
            if pred(indexed[i as int]) {
                assert(indexed.take(i as int).filter(pred).push(indexed[i as int]).map_values(
                    proj,
                ) =~= indexed.take(i as int).filter(pred).map_values(proj).push(
                    proj(indexed[i as int]),
                ));
            }
        }
        if count > 1 {
            r.push((i, count));
        }
        i = i + 1;
    }
    proof {
        assert(indexed.take(page_illusts@.len() as int) =~= indexed);
    }
    r
}

/// Number of sub-pages of a post.
pub fn page_count_of_post(post: &PostRecord) -> (r: usize)
    ensures
        r as int == spec_page_count(*post),
{
    if post.meta_pages.len() > 1 {
        post.meta_pages.len()
    } else {
        1
    }
}

} // verus!

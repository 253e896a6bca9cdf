//! Paginated content cache: per-collection state keyed by page number.
//! A `Gallery` caches whole gallery/feed pages; a `UserData` caches the
//! identities and preview thumbnails of a user-listing page; an `Image`
//! holds one multi-page post. Raw records enter through `update`, and every
//! derived accessor (URLs, names, paths, ids) is computed from the typed
//! model.

use vstd::prelude::*;
use std::collections::HashMap;
use serde_json::Value;
use crate::digits::spec_digits;
use crate::digits::u64_to_string;
use crate::names::{newnames_with_ext, spec_prefix_filename, split_backslash_last};
use crate::rawpage::{parse_gallery_page, parse_post, parse_user_page};
use crate::record::{
    medium_urls, page_urls_in_post, post_titles_in_page, spec_page_count, spec_url_given_size,
    GalleryPage, ImageSize, PostRecord, UserPage, UserPreview,
};
use crate::text::{after_last_char, after_last_char_str, before_first_char, before_first_char_str};

verus! {

broadcast use vstd::std_specs::hash::group_hash_axioms;

/// Download directory of one page of a collection: the collection's base
/// path, a slash, and the page number in decimal.
pub open spec fn spec_download_path(main_path: Seq<char>, page_num: int) -> Seq<char> {
    main_path + seq!['/'] + spec_digits(page_num)
}

/// The square-medium thumbnail URL of each post of a page, in catalog
/// order.
pub open spec fn gallery_urls(page: GalleryPage) -> Seq<Seq<char>> {
    page.illusts@.map_values(|p: PostRecord| p.image_urls.square_medium@)
}

/// The title of each post of a page, in catalog order.
pub open spec fn gallery_names(page: GalleryPage) -> Seq<Seq<char>> {
    page.illusts@.map_values(|p: PostRecord| p.title@)
}

/// The artist id of each preview of a user-listing page, in listing order.
pub open spec fn preview_ids(page: UserPage) -> Seq<String> {
    page.previews@.map_values(|p: UserPreview| p.user_id)
}

/// The artist name of each preview of a user-listing page.
pub open spec fn preview_names(page: UserPage) -> Seq<String> {
    page.previews@.map_values(|p: UserPreview| p.user_name)
}

/// The avatar URL of each preview of a user-listing page.
pub open spec fn preview_profile_urls(page: UserPage) -> Seq<String> {
    page.previews@.map_values(|p: UserPreview| p.profile_pic_url)
}

/// Every artist's recent-work thumbnail URLs, flattened in artist order
/// then preview order.
pub open spec fn preview_work_urls(page: UserPage) -> Seq<String> {
    page.previews@.map_values(|p: UserPreview| p.work_urls@).flatten()
}

/// Builds `{main_path}/{page_num}`.
fn download_path_of(main_path: &String, page_num: u64) -> (r: String)
    ensures
        r@ == spec_download_path(main_path@, page_num as int),
{
    let num = u64_to_string(page_num);
    let r = main_path.clone().concat("/").concat(num.as_str());
    proof {
        reveal_strlit("/");
        assert(r@ =~= spec_download_path(main_path@, page_num as int));
    }
    r
}

/// The gallery cache: one collection variant's browsing state, with every
/// fetched page stored under its page number.
pub struct Gallery {
    pub page_num: u64,
    pub main_path: String,
    pub offset: i64,
    pub all_pages_cache: HashMap<u64, GalleryPage>,
}

impl Gallery {
    /// A fresh gallery at page zero with an empty page cache.
    pub fn new(main_path: String, offset: i64) -> (g: Gallery)
        ensures
            g.page_num == 0,
            g.main_path == main_path,
            g.offset == offset,
            g.all_pages_cache@ == Map::<u64, GalleryPage>::empty(),
    {
        Gallery { page_num: 0, main_path, offset, all_pages_cache: HashMap::new() }
    }

    /// Stores a parsed page under the current page number, overwriting any
    /// earlier entry for it; no other state changes.
    pub fn update_parsed(&mut self, page: GalleryPage)
        ensures
            final(self).all_pages_cache@ == old(self).all_pages_cache@.insert(
                old(self).page_num,
                page,
            ),
            final(self).page_num == old(self).page_num,
            final(self).main_path == old(self).main_path,
            final(self).offset == old(self).offset,
    {
        let page_num = self.page_num;
        self.all_pages_cache.insert(page_num, page);
    }

    /// Parses a raw page record and stores it under the current page
    /// number.
    pub fn update(&mut self, raw: &Value)
        ensures
            exists|page: GalleryPage|
                final(self).all_pages_cache@ == old(self).all_pages_cache@.insert(
                    old(self).page_num,
                    page,
                ),
            final(self).page_num == old(self).page_num,
            final(self).main_path == old(self).main_path,
            final(self).offset == old(self).offset,
    {
        let page = parse_gallery_page(raw);
        self.update_parsed(page);
    }

    /// The cached page for the current page number; nothing when that page
    /// has not been fetched yet.
    pub fn current_page(&self) -> (r: Option<&GalleryPage>)
        ensures
            match r {
                Some(p) => self.all_pages_cache@.contains_key(self.page_num) && *p
                    == self.all_pages_cache@[self.page_num],
                None => !self.all_pages_cache@.contains_key(self.page_num),
            },
    {
        self.all_pages_cache.get(&self.page_num)
    }

    /// The posts of the cached current page; nothing when it has not been
    /// fetched.
    pub fn current_illusts(&self) -> (r: Option<&Vec<PostRecord>>)
        ensures
            match r {
                Some(v) => self.all_pages_cache@.contains_key(self.page_num) && *v
                    == self.all_pages_cache@[self.page_num].illusts,
                None => !self.all_pages_cache@.contains_key(self.page_num),
            },
    {
        match self.all_pages_cache.get(&self.page_num) {
            Some(p) => Some(&p.illusts),
            None => None,
        }
    }

    /// The post at the given position of the cached current page.
    pub fn post_json(&self, post_number: usize) -> (r: &PostRecord)
        requires
            self.all_pages_cache@.contains_key(self.page_num),
            post_number < self.all_pages_cache@[self.page_num].illusts@.len(),
        ensures
            *r == self.all_pages_cache@[self.page_num].illusts@[post_number as int],
    {
        match self.all_pages_cache.get(&self.page_num) {
            Some(p) => &p.illusts[post_number],
            None => unreached(),
        }
    }

    /// The id of the post at the given position.
    pub fn image_id(&self, post_number: usize) -> (r: String)
        requires
            self.all_pages_cache@.contains_key(self.page_num),
            post_number < self.all_pages_cache@[self.page_num].illusts@.len(),
        ensures
            r == self.all_pages_cache@[self.page_num].illusts@[post_number as int].post_id,
    {
        self.post_json(post_number).post_id.clone()
    }

    /// The large-size URL of the post at the given position.
    pub fn url(&self, number: usize) -> (r: String)
        requires
            self.all_pages_cache@.contains_key(self.page_num),
            number < self.all_pages_cache@[self.page_num].illusts@.len(),
        ensures
            r@ == self.all_pages_cache@[self.page_num].illusts@[number as int].image_urls.large@,
    {
        self.post_json(number).image_urls.large.clone()
    }

    /// The owning artist's id of the post at the given position.
    pub fn artist_user_id(&self, post_number: usize) -> (r: String)
        requires
            self.all_pages_cache@.contains_key(self.page_num),
            post_number < self.all_pages_cache@[self.page_num].illusts@.len(),
        ensures
            r == self.all_pages_cache@[self.page_num].illusts@[post_number as int].user_id,
    {
        self.post_json(post_number).user_id.clone()
    }

    /// The pagination continuation of the cached current page: nothing
    /// when the page is not cached or is the last page.
    pub fn next_url(&self) -> (r: Option<String>)
        ensures
            self.all_pages_cache@.contains_key(self.page_num) ==> r
                == self.all_pages_cache@[self.page_num].next_url,
            !self.all_pages_cache@.contains_key(self.page_num) ==> r is None,
    {
        match self.all_pages_cache.get(&self.page_num) {
            Some(p) => match &p.next_url {
                Some(u) => Some(u.clone()),
                None => None,
            },
            None => None,
        }
    }

    /// Download directory of the current page.
    pub fn download_path(&self) -> (r: String)
        ensures
            r@ == spec_download_path(self.main_path@, self.page_num as int),
    {
        download_path_of(&self.main_path, self.page_num)
    }

    /// Thumbnail URL of every post of the cached current page, in catalog
    /// order.
    pub fn all_urls(&self) -> (r: Vec<String>)
        requires
            self.all_pages_cache@.contains_key(self.page_num),
        ensures
            r@.len() == self.all_pages_cache@[self.page_num].illusts@.len(),
            forall|i: int|
                0 <= i < r@.len() ==> r@[i]@ == gallery_urls(
                    self.all_pages_cache@[self.page_num],
                )[i],
    {
        match self.all_pages_cache.get(&self.page_num) {
            Some(p) => medium_urls(&p.illusts),
            None => unreached(),
        }
    }

    /// Title of every post of the cached current page, in catalog order.
    pub fn all_names(&self) -> (r: Vec<String>)
        requires
            self.all_pages_cache@.contains_key(self.page_num),
        ensures
            r@.len() == self.all_pages_cache@[self.page_num].illusts@.len(),
            forall|i: int|
                0 <= i < r@.len() ==> r@[i]@ == gallery_names(
                    self.all_pages_cache@[self.page_num],
                )[i],
    {
        match self.all_pages_cache.get(&self.page_num) {
            Some(p) => post_titles_in_page(&p.illusts),
            None => unreached(),
        }
    }

    /// The filename component of every post URL of the current page.
    pub fn urls_as_names(&self) -> (r: Vec<String>)
        requires
            self.all_pages_cache@.contains_key(self.page_num),
        ensures
            r@.len() == self.all_pages_cache@[self.page_num].illusts@.len(),
            forall|i: int|
                0 <= i < r@.len() ==> r@[i]@ == after_last_char(
                    gallery_urls(self.all_pages_cache@[self.page_num])[i],
                    '/',
                ),
    {
        let urls = self.all_urls();
        map_filenames(&urls)
    }

    /// The output filename of every post of the current page:
    /// `{i:03}_{title_i}.{ext_i}`.
    pub fn newnames_with_ext(&self) -> (r: Vec<String>)
        requires
            self.all_pages_cache@.contains_key(self.page_num),
            self.all_pages_cache@[self.page_num].illusts@.len() <= i32::MAX as int,
        ensures
            r@.len() == self.all_pages_cache@[self.page_num].illusts@.len(),
            forall|i: int|
                0 <= i < r@.len() ==> r@[i]@ == spec_prefix_filename(
                    after_last_char(gallery_urls(self.all_pages_cache@[self.page_num])[i], '/'),
                    gallery_names(self.all_pages_cache@[self.page_num])[i],
                    i,
                ),
    {
        newnames_with_ext(self.all_urls(), self.urls_as_names(), self.all_names())
    }
}

/// The user-listing cache: per-page artist ids and names, plus the avatar
/// and recent-work thumbnail URLs of the page fetched last. `splitpoint`
/// is the number of avatars, which partitions the combined name list into
/// artist names and names synthesized from work filenames.
pub struct UserData {
    pub page_num: u64,
    pub main_path: String,
    pub offset: i64,
    pub next_url: Option<String>,
    pub ids_cache: HashMap<u64, Vec<String>>,
    pub names_cache: HashMap<u64, Vec<String>>,
    pub profile_pic_urls: Vec<String>,
    pub image_urls: Vec<String>,
    pub splitpoint: usize,
}

/// Clones the artist id of every preview, in listing order.
fn collect_ids(page: &UserPage) -> (r: Vec<String>)
    ensures
        r@ =~= preview_ids(*page),
{
    let mut r: Vec<String> = Vec::new();
    let mut i: usize = 0;
    while i < page.previews.len()
        invariant
            0 <= i <= page.previews@.len(),
            r@.len() == i as int,
            forall|k: int| 0 <= k < i ==> r@[k] == page.previews@[k].user_id,
        decreases page.previews@.len() - i,
    {
        r.push(page.previews[i].user_id.clone());
        i = i + 1;
    }
    r
}

/// Clones the artist name of every preview, in listing order.
fn collect_names(page: &UserPage) -> (r: Vec<String>)
    ensures
        r@ =~= preview_names(*page),
{
    let mut r: Vec<String> = Vec::new();
    let mut i: usize = 0;
    while i < page.previews.len()
        invariant
            0 <= i <= page.previews@.len(),
            r@.len() == i as int,
            forall|k: int| 0 <= k < i ==> r@[k] == page.previews@[k].user_name,
        decreases page.previews@.len() - i,
    {
        r.push(page.previews[i].user_name.clone());
        i = i + 1;
    }
    r
}

/// Clones the avatar URL of every preview, in listing order.
fn collect_profile_urls(page: &UserPage) -> (r: Vec<String>)
    ensures
        r@ =~= preview_profile_urls(*page),
{
    let mut r: Vec<String> = Vec::new();
    let mut i: usize = 0;
    while i < page.previews.len()
        invariant
            0 <= i <= page.previews@.len(),
            r@.len() == i as int,
            forall|k: int| 0 <= k < i ==> r@[k] == page.previews@[k].profile_pic_url,
        decreases page.previews@.len() - i,
    {
        r.push(page.previews[i].profile_pic_url.clone());
        i = i + 1;
    }
    r
}

/// Flattens every preview's recent-work URLs, artist order first, preview
/// order within an artist.
fn collect_work_urls(page: &UserPage) -> (r: Vec<String>)
    ensures
        r@ =~= preview_work_urls(*page),
{
    let ghost f = |p: UserPreview| p.work_urls@;
    let mut r: Vec<String> = Vec::new();
    let mut i: usize = 0;
    proof {
        assert(page.previews@.take(0).map_values(f) =~= Seq::<Seq<String>>::empty());
        assert(r@ =~= page.previews@.take(0).map_values(f).flatten());
    }
    while i < page.previews.len()
        invariant
            0 <= i <= page.previews@.len(),
            f == (|p: UserPreview| p.work_urls@),
            r@ =~= page.previews@.take(i as int).map_values(f).flatten(),
        decreases page.previews@.len() - i,
    {
        let works = &page.previews[i].work_urls;
        let ghost r_before = r@;
        let mut j: usize = 0;
        while j < works.len()
            invariant
                0 <= j <= works@.len(),
                works == &page.previews@[i as int].work_urls,
                i < page.previews@.len(),
                r@ =~= r_before + works@.take(j as int),
            decreases works@.len() - j,
        {
            r.push(works[j].clone());
            proof {
                assert(works@.take(j as int).push(works@[j as int]) =~= works@.take(
                    j as int + 1,
                ));
            }
            j = j + 1;
        }
        proof {
            let prevs = page.previews@;
            assert(works@.take(works@.len() as int) =~= works@);
            assert(prevs.take(i as int).map_values(f).push(f(prevs[i as int])) =~= prevs.take(
                i as int + 1,
            ).map_values(f));
            prevs.take(i as int).map_values(f).lemma_flatten_push(f(prevs[i as int]));
        }
        i = i + 1;
    }
    proof {
        assert(page.previews@.take(page.previews@.len() as int) =~= page.previews@);
    }
    r
}

impl UserData {
    /// A fresh user-listing cache at page zero, with empty caches and no
    /// fetched page.
    pub fn new(main_path: String, offset: i64) -> (u: UserData)
        ensures
            u.page_num == 0,
            u.main_path == main_path,
            u.offset == offset,
            u.next_url is None,
            u.ids_cache@ == Map::<u64, Vec<String>>::empty(),
            u.names_cache@ == Map::<u64, Vec<String>>::empty(),
            u.profile_pic_urls@ == Seq::<String>::empty(),
            u.image_urls@ == Seq::<String>::empty(),
            u.splitpoint == 0,
    {
        UserData {
            page_num: 0,
            main_path,
            offset,
            next_url: None,
            ids_cache: HashMap::new(),
            names_cache: HashMap::new(),
            profile_pic_urls: Vec::new(),
            image_urls: Vec::new(),
            splitpoint: 0,
        }
    }

    /// Records a parsed user-listing page: stores its ids and names under
    /// the current page number, replaces the avatar and work URL lists,
    /// takes over the continuation, and sets the split point to the
    /// number of avatars.
    pub fn update_parsed(&mut self, page: UserPage)
        ensures
            final(self).page_num == old(self).page_num,
            final(self).main_path == old(self).main_path,
            final(self).offset == old(self).offset,
            final(self).next_url == page.next_url,
            final(self).ids_cache@ == old(self).ids_cache@.insert(
                old(self).page_num,
                final(self).ids_cache@[old(self).page_num],
            ),
            final(self).ids_cache@[old(self).page_num]@ == preview_ids(page),
            final(self).names_cache@ == old(self).names_cache@.insert(
                old(self).page_num,
                final(self).names_cache@[old(self).page_num],
            ),
            final(self).names_cache@[old(self).page_num]@ == preview_names(page),
            final(self).profile_pic_urls@ == preview_profile_urls(page),
            final(self).image_urls@ == preview_work_urls(page),
            final(self).splitpoint == page.previews@.len(),
    {
        let ids = collect_ids(&page);
        let names = collect_names(&page);
        let profiles = collect_profile_urls(&page);
        let works = collect_work_urls(&page);
        let splitpoint = profiles.len();
        let page_num = self.page_num;
        self.next_url = page.next_url;
        self.ids_cache.insert(page_num, ids);
        self.names_cache.insert(page_num, names);
        self.profile_pic_urls = profiles;
        self.image_urls = works;
        self.splitpoint = splitpoint;
    }

    /// Parses a raw user-listing record and records it.
    pub fn update(&mut self, raw: &Value)
        ensures
            final(self).page_num == old(self).page_num,
            final(self).main_path == old(self).main_path,
            final(self).offset == old(self).offset,
            exists|page: UserPage|
                {
                    &&& final(self).next_url == page.next_url
                    &&& final(self).ids_cache@ == old(self).ids_cache@.insert(
                        old(self).page_num,
                        final(self).ids_cache@[old(self).page_num],
                    )
                    &&& final(self).ids_cache@[old(self).page_num]@ == preview_ids(page)
                    &&& final(self).names_cache@ == old(self).names_cache@.insert(
                        old(self).page_num,
                        final(self).names_cache@[old(self).page_num],
                    )
                    &&& final(self).names_cache@[old(self).page_num]@ == preview_names(page)
                    &&& final(self).profile_pic_urls@ == preview_profile_urls(page)
                    &&& final(self).image_urls@ == preview_work_urls(page)
                    &&& final(self).splitpoint == page.previews@.len()
                },
    {
        let page = parse_user_page(raw);
        self.update_parsed(page);
    }

    /// The cached artist names of the current page.
    pub fn names(&self) -> (r: &Vec<String>)
        requires
            self.names_cache@.contains_key(self.page_num),
        ensures
            *r == self.names_cache@[self.page_num],
    {
        match self.names_cache.get(&self.page_num) {
            Some(v) => v,
            None => unreached(),
        }
    }

    /// The artist id at the given row of the current page's listing.
    pub fn artist_user_id(&self, selected_user_num: usize) -> (r: String)
        requires
            self.ids_cache@.contains_key(self.page_num),
            selected_user_num < self.ids_cache@[self.page_num]@.len(),
        ensures
            r == self.ids_cache@[self.page_num]@[selected_user_num as int],
    {
        match self.ids_cache.get(&self.page_num) {
            Some(v) => v[selected_user_num].clone(),
            None => unreached(),
        }
    }

    /// Download directory of the current page.
    pub fn download_path(&self) -> (r: String)
        ensures
            r@ == spec_download_path(self.main_path@, self.page_num as int),
    {
        download_path_of(&self.main_path, self.page_num)
    }

    /// Every thumbnail of the current page in display order: the avatars,
    /// then every artist's recent works.
    pub fn all_urls(&self) -> (r: Vec<String>)
        ensures
            r@ =~= self.profile_pic_urls@ + self.image_urls@,
    {
        let mut r: Vec<String> = Vec::new();
        let mut i: usize = 0;
        while i < self.profile_pic_urls.len()
            invariant
                0 <= i <= self.profile_pic_urls@.len(),
                r@ =~= self.profile_pic_urls@.take(i as int),
            decreases self.profile_pic_urls@.len() - i,
        {
            r.push(self.profile_pic_urls[i].clone());
            proof {
                assert(self.profile_pic_urls@.take(i as int).push(
                    self.profile_pic_urls@[i as int],
                ) =~= self.profile_pic_urls@.take(i as int + 1));
            }
            i = i + 1;
        }
        proof {
            assert(self.profile_pic_urls@.take(self.profile_pic_urls@.len() as int)
                =~= self.profile_pic_urls@);
        }
        let mut j: usize = 0;
        while j < self.image_urls.len()
            invariant
                0 <= j <= self.image_urls@.len(),
                r@ =~= self.profile_pic_urls@ + self.image_urls@.take(j as int),
            decreases self.image_urls@.len() - j,
        {
            r.push(self.image_urls[j].clone());
            proof {
                assert((self.profile_pic_urls@ + self.image_urls@.take(j as int)).push(
                    self.image_urls@[j as int],
                ) =~= self.profile_pic_urls@ + self.image_urls@.take(j as int + 1));
            }
            j = j + 1;
        }
        proof {
            assert(self.image_urls@.take(self.image_urls@.len() as int) =~= self.image_urls@);
        }
        r
    }

    /// Every display name of the current page: the cached artist names,
    /// then one name per recent work, synthesized from the stem of the
    /// work's filename.
    pub fn all_names(&self) -> (r: Vec<String>)
        requires
            self.names_cache@.contains_key(self.page_num),
        ensures
            r@.len() == self.names_cache@[self.page_num]@.len() + self.image_urls@.len(),
            forall|i: int|
                0 <= i < self.names_cache@[self.page_num]@.len() ==> r@[i]
                    == self.names_cache@[self.page_num]@[i],
            forall|i: int|
                0 <= i < self.image_urls@.len() ==> r@[self.names_cache@[self.page_num]@.len()
                    + i]@ == before_first_char(
                    after_last_char(self.image_urls@[i]@, '/'),
                    '.',
                ),
    {
        let names = self.names();
        let mut r: Vec<String> = Vec::new();
        let mut i: usize = 0;
        while i < names.len()
            invariant
                0 <= i <= names@.len(),
                names == &self.names_cache@[self.page_num],
                r@.len() == i as int,
                forall|k: int| 0 <= k < i ==> r@[k] == names@[k],
            decreases names@.len() - i,
        {
            r.push(names[i].clone());
            i = i + 1;
        }
        let n = names.len();
        let mut j: usize = 0;
        while j < self.image_urls.len()
            invariant
                0 <= j <= self.image_urls@.len(),
                n == self.names_cache@[self.page_num]@.len(),
                r@.len() == n + j,
                forall|k: int| 0 <= k < n ==> r@[k] == self.names_cache@[self.page_num]@[k],
                forall|k: int|
                    0 <= k < j ==> r@[n + k]@ == before_first_char(
                        after_last_char(self.image_urls@[k]@, '/'),
                        '.',
                    ),
            decreases self.image_urls@.len() - j,
        {
            let filename = after_last_char_str(self.image_urls[j].as_str(), '/');
            let stem = before_first_char_str(filename, '.');
            r.push(String::from_str(stem));
            j = j + 1;
        }
        r
    }

    /// The filename component of every thumbnail URL of the current
    /// page.
    pub fn urls_as_names(&self) -> (r: Vec<String>)
        ensures
            r@.len() == self.profile_pic_urls@.len() + self.image_urls@.len(),
            forall|i: int|
                0 <= i < r@.len() ==> r@[i]@ == after_last_char(
                    (self.profile_pic_urls@ + self.image_urls@)[i]@,
                    '/',
                ),
    {
        let urls = self.all_urls();
        map_filenames(&urls)
    }

    /// The output filename of every thumbnail of the current page:
    /// `{i:03}_{name_i}.{ext_i}` over the combined display names.
    pub fn newnames_with_ext(&self) -> (r: Vec<String>)
        requires
            self.names_cache@.contains_key(self.page_num),
            self.names_cache@[self.page_num]@.len() == self.profile_pic_urls@.len(),
            self.profile_pic_urls@.len() + self.image_urls@.len() <= i32::MAX as int,
        ensures
            r@.len() == self.profile_pic_urls@.len() + self.image_urls@.len(),
            forall|i: int|
                0 <= i < r@.len() ==> r@[i]@ == spec_prefix_filename(
                    after_last_char((self.profile_pic_urls@ + self.image_urls@)[i]@, '/'),
                    ({
                        let n = self.names_cache@[self.page_num]@.len() as int;
                        if i < n {
                            self.names_cache@[self.page_num]@[i]@
                        } else {
                            before_first_char(
                                after_last_char(self.image_urls@[i - n]@, '/'),
                                '.',
                            )
                        }
                    }),
                    i,
                ),
    {
        newnames_with_ext(self.all_urls(), self.urls_as_names(), self.all_names())
    }

    /// The pagination continuation carried over from the last fetched
    /// page.
    pub fn next_url(&self) -> (r: Option<String>)
        ensures
            r == self.next_url,
    {
        match &self.next_url {
            Some(u) => Some(u.clone()),
            None => None,
        }
    }
}

/// The seed state of a user-listing collection, before any page has been
/// fetched.
pub struct User {
    pub page_num: u64,
    pub main_path: String,
    pub offset: i64,
}

impl User {
    /// Builds the user-listing cache for a freshly fetched raw record:
    /// the seed state plus everything `UserData` derives from the page.
    pub fn update(&self, raw: &Value) -> (u: UserData)
        ensures
            u.page_num == self.page_num,
            u.main_path == self.main_path,
            u.offset == self.offset,
            exists|page: UserPage|
                {
                    &&& u.next_url == page.next_url
                    &&& u.ids_cache@.contains_key(self.page_num)
                    &&& u.ids_cache@[self.page_num]@ == preview_ids(page)
                    &&& u.names_cache@.contains_key(self.page_num)
                    &&& u.names_cache@[self.page_num]@ == preview_names(page)
                    &&& u.profile_pic_urls@ == preview_profile_urls(page)
                    &&& u.image_urls@ == preview_work_urls(page)
                    &&& u.splitpoint == page.previews@.len()
                },
    {
        let mut data = UserData::new(self.main_path.clone(), self.offset);
        data.page_num = self.page_num;
        data.update(raw);
        data
    }
}

/// One multi-page post being viewed image by image.
pub struct Image {
    pub image_id: String,
    pub artist_user_id: String,
    pub page_num: usize,
    pub page_urls: Vec<String>,
    pub number_of_pages: usize,
    pub download_path: String,
}

/// Download directory of a single post: `{base}/{owner}/individual`, with
/// the post id appended for a multi-page post.
pub open spec fn spec_image_download_path(
    base: Seq<char>,
    user_id: Seq<char>,
    image_id: Seq<char>,
    multi: bool,
) -> Seq<char> {
    let stem = base + seq!['/'] + user_id + "/individual"@;
    if multi {
        stem + seq!['/'] + image_id
    } else {
        stem
    }
}

impl Image {
    /// The sub-page position is valid and the page count is the length of
    /// the URL list, which is never empty.
    pub open spec fn wf(self) -> bool {
        &&& self.page_urls@.len() >= 1
        &&& self.number_of_pages == self.page_urls@.len()
        &&& self.page_num < self.page_urls@.len()
    }

    /// The URL of the sub-page currently shown.
    pub fn current_url(&self) -> (r: &str)
        requires
            self.wf(),
        ensures
            r@ == self.page_urls@[self.page_num as int]@,
    {
        self.page_urls[self.page_num].as_str()
    }

    /// The URL of the next sub-page.
    pub fn next_img_url(&self) -> (r: &str)
        requires
            self.wf(),
            self.page_num + 1 < self.page_urls@.len(),
        ensures
            r@ == self.page_urls@[self.page_num as int + 1]@,
    {
        self.page_urls[self.page_num + 1].as_str()
    }

    /// The filename of the sub-page currently shown.
    pub fn image_filename(&self) -> (r: &str)
        requires
            self.wf(),
        ensures
            r@ == after_last_char(self.page_urls@[self.page_num as int]@, '/'),
    {
        split_backslash_last(self.current_url())
    }

    /// The full path the current sub-page downloads to.
    pub fn filepath(&self) -> (r: String)
        requires
            self.wf(),
        ensures
            r@ == self.download_path@ + seq!['/'] + after_last_char(
                self.page_urls@[self.page_num as int]@,
                '/',
            ),
    {
        let name = self.image_filename();
        let r = self.download_path.clone().concat("/").concat(name);
        proof {
            reveal_strlit("/");
            assert(r@ =~= self.download_path@ + seq!['/'] + after_last_char(
                self.page_urls@[self.page_num as int]@,
                '/',
            ));
        }
        r
    }

    /// The filename of the first sub-page.
    pub fn large_filename(&self) -> (r: &str)
        requires
            self.wf(),
        ensures
            r@ == after_last_char(self.page_urls@[0]@, '/'),
    {
        split_backslash_last(self.page_urls[0].as_str())
    }
}

/// Builds the single-post view from a parsed post record: sub-page URLs at
/// large size, the owner's id, and the download directory derived from
/// them.
pub fn new_image_from_post(post: &PostRecord, image_id: &str, base_dir: &str) -> (r: Image)
    ensures
        r.wf(),
        r.page_num == 0,
        r.image_id@ == image_id@,
        r.artist_user_id == post.user_id,
        r.page_urls@.len() == spec_page_count(*post),
        post.meta_pages@.len() > 1 ==> forall|i: int|
            0 <= i < r.page_urls@.len() ==> r.page_urls@[i]@ == post.meta_pages@[i].large@,
        post.meta_pages@.len() <= 1 ==> r.page_urls@[0]@ == post.image_urls.large@,
        r.download_path@ == spec_image_download_path(
            base_dir@,
            post.user_id@,
            image_id@,
            spec_page_count(*post) != 1,
        ),
{
    let page_urls = page_urls_in_post(post, ImageSize::Large);
    let number_of_pages = page_urls.len();
    let mut download_path = String::from_str(base_dir).concat("/").concat(
        post.user_id.as_str(),
    ).concat("/individual");
    if number_of_pages != 1 {
        download_path = download_path.concat("/").concat(image_id);
    }
    proof {
        reveal_strlit("/");
        assert(download_path@ =~= spec_image_download_path(
            base_dir@,
            post.user_id@,
            image_id@,
            spec_page_count(*post) != 1,
        ));
    }
    Image {
        image_id: String::from_str(image_id),
        artist_user_id: post.user_id.clone(),
        page_num: 0,
        page_urls,
        number_of_pages,
        download_path,
    }
}

/// Parses a raw single-post record and builds the single-post view for
/// it.
pub fn new_imagedata(raw: &Value, image_id: &str, base_dir: &str) -> (r: Image)
    ensures
        r.wf(),
        r.page_num == 0,
        r.image_id@ == image_id@,
        exists|post: PostRecord|
            {
                &&& r.artist_user_id == post.user_id
                &&& r.page_urls@.len() == spec_page_count(post)
                &&& r.download_path@ == spec_image_download_path(
                    base_dir@,
                    post.user_id@,
                    image_id@,
                    spec_page_count(post) != 1,
                )
            },
{
    let post = parse_post(raw);
    let r = new_image_from_post(&post, image_id, base_dir);
    proof {
        assert({
            &&& r.artist_user_id == post.user_id
            &&& r.page_urls@.len() == spec_page_count(post)
            &&& r.download_path@ == spec_image_download_path(
                base_dir@,
                post.user_id@,
                image_id@,
                spec_page_count(post) != 1,
            )
        });
    }
    r
}

/// Law: storing an identical parsed page twice under the same page number
/// leaves the cache — and with it everything `all_urls` and `all_names`
/// derive from it — exactly as after storing it once. The hypotheses are
/// the postconditions of two consecutive `update_parsed` calls with the
/// same page.
pub proof fn lemma_update_idempotent(g0: Gallery, g1: Gallery, g2: Gallery, page: GalleryPage)
    requires
        g1.page_num == g0.page_num,
        g1.all_pages_cache@ == g0.all_pages_cache@.insert(g0.page_num, page),
        g2.page_num == g1.page_num,
        g2.all_pages_cache@ == g1.all_pages_cache@.insert(g1.page_num, page),
    ensures
        g2.all_pages_cache@ == g1.all_pages_cache@,
        gallery_urls(g2.all_pages_cache@[g2.page_num]) == gallery_urls(
            g1.all_pages_cache@[g1.page_num],
        ),
        gallery_names(g2.all_pages_cache@[g2.page_num]) == gallery_names(
            g1.all_pages_cache@[g1.page_num],
        ),
{
    assert(g2.all_pages_cache@ =~= g1.all_pages_cache@);
}

/// Maps every URL to its filename component.
fn map_filenames(urls: &Vec<String>) -> (r: Vec<String>)
    ensures
        r@.len() == urls@.len(),
        forall|i: int| 0 <= i < r@.len() ==> r@[i]@ == after_last_char(urls@[i]@, '/'),
{
    let mut r: Vec<String> = Vec::new();
    let mut i: usize = 0;
    while i < urls.len()
        invariant
            0 <= i <= urls@.len(),
            r@.len() == i as int,
            forall|k: int| 0 <= k < i ==> r@[k]@ == after_last_char(urls@[k]@, '/'),
        decreases urls@.len() - i,
    {
        let name = split_backslash_last(urls[i].as_str());
        r.push(String::from_str(name));
        i = i + 1;
    }
    r
}

} // verus!

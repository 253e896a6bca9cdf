use koneko::cache::{new_imagedata, Gallery, User, UserData};
use koneko::record::{
    medium_urls, multi_page_counts, page_count_of_post, page_urls_in_post, post_title,
    post_titles_in_page, url_given_size, GalleryPage, ImageSize, ImageUrls, PostRecord,
    UserPage, UserPreview,
};

fn gallery_json() -> serde_json::Value {
    let text = r#"{
        "illusts": [
            {
                "id": 11,
                "title": "first",
                "user": {"id": 77, "name": "artist"},
                "image_urls": {
                    "square_medium": "https://x/a/11_p0_square.jpg",
                    "medium": "https://x/a/11_p0_med.jpg",
                    "large": "https://x/a/11_p0_large.jpg"
                },
                "page_count": 1,
                "meta_pages": []
            },
            {
                "id": 12,
                "title": "second",
                "user": {"id": 88, "name": "other"},
                "image_urls": {
                    "square_medium": "https://x/b/12_p0_square.jpg",
                    "medium": "https://x/b/12_p0_med.jpg",
                    "large": "https://x/b/12_p0_large.jpg"
                },
                "page_count": 2,
                "meta_pages": [
                    {"image_urls": {"square_medium": "https://x/b/12_p0_sq.jpg", "medium": "https://x/b/12_p0_m.jpg", "large": "https://x/b/12_p0_l.jpg"}},
                    {"image_urls": {"square_medium": "https://x/b/12_p1_sq.jpg", "medium": "https://x/b/12_p1_m.jpg", "large": "https://x/b/12_p1_l.jpg"}}
                ]
            }
        ],
        "next_url": "https://next/page2"
    }"#;
    serde_json::from_str(text).unwrap()
}

#[test]
fn gallery_update_and_accessors() {
    let mut g = Gallery::new("base/77".to_string(), 0);
    assert_eq!(g.page_num, 0);
    assert!(g.current_page().is_none());
    assert!(g.next_url().is_none());

    let raw = gallery_json();
    g.update(&raw);

    let illusts = g.current_illusts().unwrap();
    assert_eq!(illusts.len(), 2);
    assert_eq!(g.image_id(0), "11");
    assert_eq!(g.artist_user_id(0), "77");
    assert_eq!(g.url(0), "https://x/a/11_p0_large.jpg");
    assert_eq!(g.next_url().unwrap(), "https://next/page2");
    assert_eq!(g.download_path(), "base/77/0");
    assert_eq!(
        g.all_urls(),
        vec!["https://x/a/11_p0_square.jpg", "https://x/b/12_p0_square.jpg"]
    );
    assert_eq!(g.all_names(), vec!["first", "second"]);
    assert_eq!(
        g.urls_as_names(),
        vec!["11_p0_square.jpg", "12_p0_square.jpg"]
    );
    assert_eq!(
        g.newnames_with_ext(),
        vec!["000_first.jpg", "001_second.jpg"]
    );
}

#[test]
fn gallery_next_url_absent_means_last_page() {
    let raw: serde_json::Value =
        serde_json::from_str(r#"{"illusts": [], "next_url": null}"#).unwrap();
    let mut g = Gallery::new("base".to_string(), 0);
    g.update(&raw);
    assert!(g.next_url().is_none());
    assert_eq!(g.all_urls().len(), 0);
}

#[test]
fn gallery_update_is_idempotent() {
    let raw = gallery_json();
    let mut g = Gallery::new("base/77".to_string(), 0);
    g.update(&raw);
    let urls_once = g.all_urls();
    let names_once = g.all_names();
    g.update(&raw);
    assert_eq!(g.all_urls(), urls_once);
    assert_eq!(g.all_names(), names_once);
}

#[test]
fn post_record_accessors() {
    let urls = ImageUrls {
        square_medium: "sq".to_string(),
        medium: "med".to_string(),
        large: "lg".to_string(),
    };
    assert_eq!(url_given_size(&urls, ImageSize::SquareMedium), "sq");
    assert_eq!(url_given_size(&urls, ImageSize::Medium), "med");
    assert_eq!(url_given_size(&urls, ImageSize::Large), "lg");

    let single = PostRecord {
        post_id: "1".to_string(),
        title: "one".to_string(),
        user_id: "9".to_string(),
        image_urls: ImageUrls {
            square_medium: "s1".to_string(),
            medium: "m1".to_string(),
            large: "l1".to_string(),
        },
        meta_pages: vec![],
    };
    assert_eq!(page_count_of_post(&single), 1);
    assert_eq!(page_urls_in_post(&single, ImageSize::Large), vec!["l1"]);

    let posts = vec![single];
    assert_eq!(post_title(&posts, 0), "one");
    assert_eq!(medium_urls(&posts), vec!["s1"]);
    assert_eq!(post_titles_in_page(&posts), vec!["one"]);
    assert_eq!(multi_page_counts(&posts), vec![]);
}

#[test]
fn multi_page_report_lists_only_multi_page_posts() {
    let raw = gallery_json();
    let mut g = Gallery::new("base".to_string(), 0);
    g.update(&raw);
    let illusts = g.current_illusts().unwrap();
    assert_eq!(multi_page_counts(illusts), vec![(1, 2)]);
    assert_eq!(
        page_urls_in_post(&illusts[1], ImageSize::Medium),
        vec!["https://x/b/12_p0_m.jpg", "https://x/b/12_p1_m.jpg"]
    );
}

fn user_page_json() -> serde_json::Value {
    let mut previews = String::new();
    for a in 0..30 {
        if a > 0 {
            previews.push(',');
        }
        let mut works = String::new();
        let count = if a == 29 { 0 } else { 3 };
        for w in 0..count {
            if w > 0 {
                works.push(',');
            }
            works.push_str(&format!(
                r#"{{"image_urls": {{"square_medium": "https://w/{}_{}_p0_sq.jpg"}}}}"#,
                a, w
            ));
        }
        previews.push_str(&format!(
            r#"{{"user": {{"id": {}, "name": "artist{}", "profile_image_urls": {{"medium": "https://p/{}.jpg"}}}}, "illusts": [{}]}}"#,
            1000 + a,
            a,
            a,
            works
        ));
    }
    let text = format!(
        r#"{{"user_previews": [{}], "next_url": "https://next/users2"}}"#,
        previews
    );
    serde_json::from_str(&text).unwrap()
}

#[test]
fn user_listing_page_partitions_names_at_split_point() {
    let raw = user_page_json();
    let seed = User {
        page_num: 1,
        main_path: "base/following/42".to_string(),
        offset: 0,
    };
    let udata = seed.update(&raw);

    assert_eq!(udata.page_num, 1);
    assert_eq!(udata.splitpoint, 30);
    assert_eq!(udata.profile_pic_urls.len(), 30);
    assert_eq!(udata.image_urls.len(), 87);
    assert_eq!(udata.all_urls().len(), 117);
    assert_eq!(udata.next_url().unwrap(), "https://next/users2");
    assert_eq!(udata.download_path(), "base/following/42/1");
    assert_eq!(udata.artist_user_id(0), "1000");
    assert_eq!(udata.names()[0], "artist0");

    let names = udata.all_names();
    assert_eq!(names.len(), 30 + 87);
    assert_eq!(names[0], "artist0");
    assert_eq!(names[29], "artist29");
    assert_eq!(names[30], "0_0_p0_sq");
    assert_eq!(names[116], "28_2_p0_sq");
}

#[test]
fn user_update_parsed_flattens_in_artist_order() {
    let page = UserPage {
        previews: vec![
            UserPreview {
                user_id: "1".to_string(),
                user_name: "a".to_string(),
                profile_pic_url: "pa".to_string(),
                work_urls: vec!["wa1".to_string(), "wa2".to_string()],
            },
            UserPreview {
                user_id: "2".to_string(),
                user_name: "b".to_string(),
                profile_pic_url: "pb".to_string(),
                work_urls: vec!["wb1".to_string()],
            },
        ],
        next_url: None,
    };
    let mut udata = UserData::new("base".to_string(), 0);
    udata.update_parsed(page);
    assert_eq!(udata.splitpoint, 2);
    assert_eq!(udata.profile_pic_urls, vec!["pa", "pb"]);
    assert_eq!(udata.image_urls, vec!["wa1", "wa2", "wb1"]);
    assert_eq!(udata.all_urls(), vec!["pa", "pb", "wa1", "wa2", "wb1"]);
    assert!(udata.next_url().is_none());
}

#[test]
fn image_view_of_multi_page_post() {
    let text = r#"{
        "id": 5,
        "title": "multi",
        "user": {"id": 2232374},
        "image_urls": {"square_medium": "s", "medium": "m", "large": "l"},
        "page_count": 3,
        "meta_pages": [
            {"image_urls": {"square_medium": "s0", "medium": "m0", "large": "https://i/5_p0_master.jpg"}},
            {"image_urls": {"square_medium": "s1", "medium": "m1", "large": "https://i/5_p1_master.jpg"}},
            {"image_urls": {"square_medium": "s2", "medium": "m2", "large": "https://i/5_p2_master.jpg"}}
        ]
    }"#;
    let raw: serde_json::Value = serde_json::from_str(text).unwrap();
    let img = new_imagedata(&raw, "5", "base");
    assert_eq!(img.page_num, 0);
    assert_eq!(img.number_of_pages, 3);
    assert_eq!(img.artist_user_id, "2232374");
    assert_eq!(img.download_path, "base/2232374/individual/5");
    assert_eq!(img.current_url(), "https://i/5_p0_master.jpg");
    assert_eq!(img.next_img_url(), "https://i/5_p1_master.jpg");
    assert_eq!(img.image_filename(), "5_p0_master.jpg");
    assert_eq!(img.filepath(), "base/2232374/individual/5/5_p0_master.jpg");
    assert_eq!(img.large_filename(), "5_p0_master.jpg");
}

#[test]
fn image_view_of_single_page_post() {
    let text = r#"{
        "id": 6,
        "title": "single",
        "user": {"id": 99},
        "image_urls": {"square_medium": "s", "medium": "m", "large": "https://i/6_p0.jpg"},
        "page_count": 1,
        "meta_pages": []
    }"#;
    let raw: serde_json::Value = serde_json::from_str(text).unwrap();
    let img = new_imagedata(&raw, "6", "base");
    assert_eq!(img.number_of_pages, 1);
    assert_eq!(img.download_path, "base/99/individual");
    assert_eq!(img.filepath(), "base/99/individual/6_p0.jpg");
}

use koneko::colors::{base1, base2, image_help_text, user_help_text, BLUE_N, b, d, d_, n};
use koneko::config::{
    check_image_preview, check_print_info, credentials_from_config,
    gallery_page_spacing_config, gallery_print_spacing_config, get_gen_users_settings,
    get_section, get_setting, image_text_offset, ncols_config, nrows_config,
    thumbnail_size_config, users_page_spacing_config, xcoords_config, ycoords_config,
};
use koneko::digits::{parse_i32, u64_to_string, u64_to_zero_padded};
use koneko::files::{dir_not_empty, dir_up_to_date, filter_dir, filter_history};
use koneko::names::str_is_digit;
use koneko::text::{find_sub, replace_all, rfind_sub, str_eq, trim_ascii};

const SAMPLE: &str = "[Credentials]\nusername=foo\npassword=hunter2\nID=42\nend=0\n\n[lscat]\nimage_width=10\nimage_x_spacing=0\nimage_height=8\npage_spacing=30\nimage_thumbnail_size=240\nusers_print_name_xcoord=20\nimages_x_spacing=3\ngallery_print_spacing=8,2,3\nend=0\n\n[experimental]\nimage_mode_previews=true\nimage_mode_text_offset=6\nend=0\n\n[misc]\nprint_info=false\nend=0\n";

#[test]
fn sections_and_settings_are_found() {
    let sec = get_section(SAMPLE, "lscat");
    assert!(sec.starts_with("image_width=10"));
    assert_eq!(get_setting(SAMPLE, "lscat", "image_width").unwrap(), "10");
    assert_eq!(get_setting(SAMPLE, "LSCAT", "IMAGE_WIDTH").unwrap(), "10");
    assert_eq!(get_setting(SAMPLE, "lscat", "page_spacing").unwrap(), "30");
    assert!(get_setting(SAMPLE, "lscat", "missing_key").is_none());
    assert!(get_setting(SAMPLE, "nosuchsection", "image_width").is_none());
}

#[test]
fn settings_parse_with_fallbacks() {
    assert_eq!(gallery_page_spacing_config(SAMPLE), 30);
    assert_eq!(users_page_spacing_config(SAMPLE), 27);
    assert_eq!(thumbnail_size_config(SAMPLE), 240);
    assert_eq!(get_gen_users_settings(SAMPLE), (20, 3));
    assert_eq!(image_text_offset(SAMPLE), 6);
    assert_eq!(check_image_preview(SAMPLE), true);
    assert_eq!(check_print_info(SAMPLE), false);

    assert_eq!(gallery_page_spacing_config(""), 23);
    assert_eq!(users_page_spacing_config(""), 20);
    assert_eq!(thumbnail_size_config(""), 310);
    assert_eq!(get_gen_users_settings(""), (18, 2));
    assert_eq!(image_text_offset(""), 4);
    assert_eq!(check_image_preview(""), false);
    assert_eq!(check_print_info(""), true);
}

#[test]
fn geometry_settings_drive_the_grid() {
    assert_eq!(ncols_config(SAMPLE, 100), 10);
    assert_eq!(nrows_config(SAMPLE, 44), 5);
    let xs = xcoords_config(SAMPLE, 100, 0);
    assert_eq!(xs.len(), 10);
    assert_eq!(xs[0], 0);
    assert_eq!(xs[1], 10);
    let ys = ycoords_config(SAMPLE, 44);
    assert_eq!(ys, vec![0, 8, 16, 24, 32]);

    assert_eq!(ncols_config("", 100), 5);
    assert_eq!(nrows_config("", 20), 2);
}

#[test]
fn print_spacing_falls_back_on_malformed_lists() {
    assert_eq!(gallery_print_spacing_config(SAMPLE), vec![8, 2, 3]);
    assert_eq!(
        gallery_print_spacing_config(""),
        vec![9, 17, 17, 17, 17]
    );
    let bad = "[lscat]\ngallery_print_spacing=8,x,3\nend=0\n";
    assert_eq!(
        gallery_print_spacing_config(bad),
        vec![9, 17, 17, 17, 17]
    );
}

#[test]
fn credentials_require_all_three_settings() {
    let creds = credentials_from_config(SAMPLE).unwrap();
    assert_eq!(creds.username, "foo");
    assert_eq!(creds.password, "hunter2");
    assert_eq!(creds.your_id, "42");

    let partial = "[Credentials]\nusername=foo\npassword=bar\n";
    assert!(credentials_from_config(partial).is_none());
    assert!(credentials_from_config("").is_none());
}

#[test]
fn decimal_text_round_trips() {
    assert_eq!(u64_to_string(0), "0");
    assert_eq!(u64_to_string(120), "120");
    assert_eq!(u64_to_zero_padded(7, 3), "007");
    assert_eq!(u64_to_zero_padded(1234, 3), "1234");
    assert_eq!(parse_i32("120"), Some(120));
    assert_eq!(parse_i32("-5"), Some(-5));
    assert_eq!(parse_i32("2147483647"), Some(2147483647));
    assert_eq!(parse_i32("2147483648"), None);
    assert_eq!(parse_i32(""), None);
    assert_eq!(parse_i32("12a"), None);
    assert_eq!(parse_i32("-"), None);
}

#[test]
fn text_utilities() {
    assert!(str_eq("abc", "abc"));
    assert!(!str_eq("abc", "abd"));
    assert_eq!(trim_ascii("  x y\t\n"), "x y");
    assert_eq!(replace_all("a.jpg.jpg", "jpg", "png"), "a.png.png");
    assert_eq!(find_sub("banana", "na"), Some(2));
    assert_eq!(rfind_sub("banana", "na"), Some(4));
    assert_eq!(find_sub("banana", "xy"), None);
    assert!(str_is_digit("123"));
    assert!(!str_is_digit("12x"));
    assert!(str_is_digit(""));
}

#[test]
fn colored_key_cues() {
    assert_eq!(n(), "\x1b[31m[\x1b[35mn\x1b[31m]\x1b[39m");
    assert_eq!(b(), "\x1b[31m[\x1b[35mb\x1b[31m]\x1b[39m");
    assert_eq!(d_(), "\x1b[31m[\x1b[35md\x1b[31m]\x1b[39m");
    assert_eq!(BLUE_N(), "\x1b[31m[\x1b[34mn\x1b[31m]\x1b[39m");
    let two = d();
    assert!(two.contains("\x1b[35md"));
    assert!(two.contains("\x1b[35mD"));
    assert_eq!(base1().len(), 8);
    assert_eq!(base2()[1], "ext page; ");
    assert!(image_help_text().contains("uit (with confirmation); "));
    assert!(user_help_text().contains("th artist's illusts "));
}

#[test]
fn directory_listing_logic() {
    assert_eq!(
        filter_history(vec![
            "a".to_string(),
            "history".to_string(),
            "b".to_string()
        ]),
        vec!["a".to_string(), "b".to_string()]
    );

    let names = vec!["cat/1".to_string(), "dog".to_string()];
    let fresh = vec!["x.jpg".to_string(), "y.jpg".to_string()];
    let stale = vec!["has_cat1_inside".to_string(), "y.jpg".to_string()];
    assert!(dir_up_to_date(&names, &fresh));
    assert!(!dir_up_to_date(&names, &stale));
    assert!(!dir_up_to_date(&names, &vec!["only".to_string()]));

    assert!(!dir_not_empty(&names, &vec![]));
    let with_marker = vec![
        ".koneko".to_string(),
        "x.jpg".to_string(),
        "y.jpg".to_string(),
    ];
    assert!(dir_not_empty(&names, &with_marker));

    let entries = vec![
        "123".to_string(),
        "following".to_string(),
        "search".to_string(),
        "stray".to_string(),
    ];
    assert_eq!(
        filter_dir(&vec![1], entries.clone(), &vec![]),
        vec!["123".to_string()]
    );
    assert_eq!(
        filter_dir(&vec![3, 4], entries.clone(), &vec![]),
        vec!["following".to_string(), "search".to_string()]
    );
    assert_eq!(
        filter_dir(&vec![2], entries, &vec!["stray".to_string()]),
        vec!["stray".to_string()]
    );
}

use koneko::layout::{generate_orders, interleave_order, ncols, nrows, xcoords, ycoords};
use koneko::names::{
    change_url_to_full, generate_filepath, newnames_with_ext, prefix_artist_name,
    prefix_filename, process_artwork_url, process_user_url, split_backslash_last,
};
use koneko::keyseqs::all_isdigit;

#[test]
fn test_split_backslash_last() {
    assert_eq!(
        split_backslash_last("https://www.pixiv.net/en/users/2232374"),
        "2232374"
    );
    assert_eq!(
        split_backslash_last("https://www.pixiv.net/en/artworks/78823485"),
        "78823485"
    );
}

#[test]
fn test_generate_filepath() {
    let home = dirs::home_dir().unwrap();
    let home_str = home.to_str().unwrap();
    assert_eq!(
        generate_filepath(home_str, "78823485_p0.jpg"),
        format!("{}/Downloads/78823485_p0.jpg", home_str)
    );
}

#[test]
fn test_prefix_filename() {
    assert_eq!(prefix_filename("old.jpg", "new", 2), "002_new.jpg");
    assert_eq!(prefix_filename("old.jpg", "new", 10), "010_new.jpg");
}

#[test]
fn test_prefix_artist_name() {
    assert_eq!(prefix_artist_name("name1", 2), "02                   name1");
    assert_eq!(prefix_artist_name("name1", 10), "10                   name1");
}

#[test]
fn test_change_url_to_full() {
    assert_eq!(
        change_url_to_full(
            "https://i.pximg.net/c/540x540_70/img-master/img/2019/09/09/04/32/38/76695217_p0_master1200.jpg",
            false
        ),
        "https://i.pximg.net/c/540x540_70/img-master/img/2019/09/09/04/32/38/76695217_p0.jpg"
    );
}

#[test]
fn test_change_url_rewrites_sizing_segment() {
    assert_eq!(
        change_url_to_full(
            "https://i.pximg.net/c/600x1200_90_webp/img-master/img/2020/05/14/06/45/24/81547984_p0_master1200.jpg",
            false
        ),
        "https://i.pximg.net/img-original/img/2020/05/14/06/45/24/81547984_p0.jpg"
    );
    assert_eq!(
        change_url_to_full(
            "https://i.pximg.net/c/600x1200_90_webp/img-master/img/2020/05/14/06/45/24/81547984_p0_master1200.jpg",
            true
        ),
        "https://i.pximg.net/img-original/img/2020/05/14/06/45/24/81547984_p0.png"
    );
}

#[test]
fn test_process_user_url() {
    assert_eq!(
        process_user_url("https://www.pixiv.net/en/users/2232374"),
        "2232374"
    );
    assert_eq!(process_user_url("2232374"), "2232374");
}

#[test]
fn test_process_artwork_url() {
    assert_eq!(
        process_artwork_url("https://www.pixiv.net/en/artworks/76695217"),
        "76695217"
    );
    assert_eq!(
        process_artwork_url("http://www.pixiv.net/member_illust.php?mode=medium&illust_id=76695217"),
        "76695217"
    );
}

#[test]
fn test_newnames_with_ext() {
    assert_eq!(
        newnames_with_ext(
            vec![
                "www.example.com/image1.png".to_string(),
                "www.example.com/image2.png".to_string(),
                "www.example.com/image3.png".to_string()
            ],
            vec![
                "image1.png".to_string(),
                "image2.png".to_string(),
                "image3.png".to_string()
            ],
            vec!["pic1".to_string(), "pic2".to_string(), "pic3".to_string()]
        ),
        vec!["000_pic1.png", "001_pic2.png", "002_pic3.png"]
    );
}

#[test]
fn test_xcoords() {
    assert_eq!(xcoords(100, 18, 2, 0), vec![2, 20, 38, 56, 74]);
}

#[test]
fn test_ycoords() {
    assert_eq!(ycoords(20, 8, 1), vec![0, 9]);
}

#[test]
fn test_generate_orders() {
    assert_eq!(
        generate_orders(120, 30),
        vec![
            0, 30, 31, 32, 1, 33, 34, 35, 2, 36, 37, 38, 3, 39, 40, 41, 4, 42, 43, 44, 5, 45,
            46, 47, 6, 48, 49, 50, 7, 51, 52, 53, 8, 54, 55, 56, 9, 57, 58, 59, 10, 60, 61, 62,
            11, 63, 64, 65, 12, 66, 67, 68, 13, 69, 70, 71, 14, 72, 73, 74, 15, 75, 76, 77, 16,
            78, 79, 80, 17, 81, 82, 83, 18, 84, 85, 86, 19, 87, 88, 89, 20, 90, 91, 92, 21, 93,
            94, 95, 22, 96, 97, 98, 23, 99, 100, 101, 24, 102, 103, 104, 25, 105, 106, 107, 26,
            108, 109, 110, 27, 111, 112, 113, 28, 114, 115, 116, 29, 117, 118, 119
        ]
    );
}

#[test]
fn test_all_isdigit() {
    assert_eq!(all_isdigit(vec!["1", "4"]), true);
    assert_eq!(all_isdigit(vec!["1", "x"]), false);
    assert_eq!(all_isdigit(vec!["1", "f"]), false);
}

#[test]
fn grid_geometry_scenario() {
    assert_eq!(ncols(100, 18, 2), 5);
    assert_eq!(xcoords(100, 18, 2, 0), vec![2, 20, 38, 56, 74]);
    assert_eq!(nrows(20, 8, 1), 2);
    assert_eq!(ycoords(20, 8, 1), vec![0, 9]);
}

#[test]
fn xcoords_strictly_increasing_with_offset() {
    let xs = xcoords(200, 10, 3, 7);
    assert_eq!(xs.len(), ncols(200, 10, 3) as usize);
    for w in xs.windows(2) {
        assert!(w[0] < w[1]);
    }
    assert_eq!(xs[0], 10);
}

#[test]
fn interleave_order_is_permutation() {
    for &(total, group) in &[(12usize, 4usize), (30, 4), (7, 3), (5, 5), (9, 1), (10, 7)] {
        let order = interleave_order(total, group);
        assert_eq!(order.len(), total);
        let mut seen = vec![false; total];
        for &v in &order {
            assert!(v < total);
            assert!(!seen[v]);
            seen[v] = true;
        }
        for (idx, &v) in order.iter().enumerate() {
            if idx % group == 0 {
                assert_eq!(v, idx / group);
            }
        }
    }
}

#[test]
fn interleave_order_edge_cases() {
    assert_eq!(interleave_order(0, 4), Vec::<usize>::new());
    assert_eq!(interleave_order(1, 4), vec![0]);
    assert_eq!(generate_orders(0, 0), Vec::<i32>::new());
    // With at most group_size blocks, every head slot stays below the
    // group size.
    let order = interleave_order(16, 4);
    for (idx, &v) in order.iter().enumerate() {
        if idx % 4 == 0 {
            assert!(v < 4);
        }
    }
}

#[test]
fn interleave_matches_generate_orders() {
    let general = interleave_order(120, 4);
    let orders = generate_orders(120, 30);
    let as_i32: Vec<i32> = general.iter().map(|&v| v as i32).collect();
    assert_eq!(as_i32, orders);
}

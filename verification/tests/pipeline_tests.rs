use koneko::layout::{display_slot, find_number_map, line_width};
use koneko::names::{file_to_int, int_to_file};
use koneko::pipeline::Sequencer;
use koneko::keyseqs::{concat_seq_to_int, seq_coords_to_int};

/// Drains every path that is ready, in order.
fn drain(seq: &mut Sequencer, out: &mut Vec<String>) {
    while let Some(p) = seq.next_ready() {
        out.push(p);
    }
}

#[test]
fn reassembly_emits_in_ordinal_order() {
    let paths = vec![
        "cache/0_a.jpg".to_string(),
        "cache/1_b.jpg".to_string(),
        "cache/2_c.jpg".to_string(),
        "cache/3_d.jpg".to_string(),
        "cache/4_e.jpg".to_string(),
    ];
    let completion_order = [2usize, 0, 1, 4, 3];

    let mut seq = Sequencer::new(5);
    let mut out: Vec<String> = Vec::new();
    for &i in completion_order.iter() {
        assert!(seq.record(paths[i].clone()));
        drain(&mut seq, &mut out);
    }
    assert_eq!(seq.pending(), 0);
    assert_eq!(out, paths);
}

#[test]
fn reassembly_blocks_until_head_arrives() {
    let mut seq = Sequencer::new(3);
    assert!(seq.record("d/2_z.jpg".to_string()));
    assert!(seq.next_ready().is_none());
    assert!(seq.record("d/1_y.jpg".to_string()));
    assert!(seq.next_ready().is_none());
    assert!(seq.record("d/0_x.jpg".to_string()));
    assert_eq!(seq.next_ready().unwrap(), "d/0_x.jpg");
    assert_eq!(seq.next_ready().unwrap(), "d/1_y.jpg");
    assert_eq!(seq.next_ready().unwrap(), "d/2_z.jpg");
    assert!(seq.next_ready().is_none());
}

#[test]
fn empty_sequencer_is_immediately_drained() {
    let mut seq = Sequencer::new(0);
    assert_eq!(seq.pending(), 0);
    assert!(seq.next_ready().is_none());
}

#[test]
fn sequencer_refuses_junk_and_duplicates() {
    let mut seq = Sequencer::new(2);
    assert!(!seq.record("no-ordinal.jpg".to_string()));
    assert!(seq.record("d/0_a.jpg".to_string()));
    assert!(!seq.record("d/0_other.jpg".to_string()));
    assert_eq!(seq.next_ready().unwrap(), "d/0_a.jpg");
}

#[test]
fn file_to_int_parses_leading_ordinal() {
    assert_eq!(file_to_int("cache/2232374/1/003_name.jpg"), Some(3));
    assert_eq!(file_to_int("12_bare.png"), Some(12));
    assert_eq!(file_to_int("cache/no-underscore.jpg"), None);
    assert_eq!(file_to_int("cache/x_notdigits.jpg"), None);
    assert_eq!(file_to_int(""), None);
}

#[test]
fn int_to_file_picks_first_match() {
    let paths = vec![
        "a/1_one.jpg".to_string(),
        "a/2_two.jpg".to_string(),
        "b/2_second.jpg".to_string(),
    ];
    assert_eq!(int_to_file(2, &paths), Some("a/2_two.jpg".to_string()));
    assert_eq!(int_to_file(9, &paths), None);
}

#[test]
fn display_slot_maps_ordinals_to_cells() {
    assert_eq!(display_slot(0, 5, 2), (0, 0, false));
    assert_eq!(display_slot(7, 5, 2), (2, 1, false));
    assert_eq!(display_slot(10, 5, 2), (0, 0, true));
    assert_eq!(display_slot(23, 5, 2), (3, 0, false));
}

#[test]
fn line_width_sums_spacings_and_columns() {
    assert_eq!(line_width(vec![9, 17, 17, 17, 17], 5), 82);
    assert_eq!(line_width(vec![], 3), 3);
}

#[test]
fn find_number_map_scenario() {
    assert_eq!(find_number_map(1, 1, 5), Some(0));
    assert_eq!(find_number_map(3, 2, 5), Some(7));
    assert_eq!(find_number_map(6, 1, 5), None);
    assert_eq!(find_number_map(1, 7, 5), None);
    assert_eq!(find_number_map(0, 1, 5), None);
}

#[test]
fn key_sequences_to_numbers() {
    assert_eq!(concat_seq_to_int(vec!["1", "2"], 0), 12);
    assert_eq!(concat_seq_to_int(vec!["i", "2", "7"], 1), 27);
    assert_eq!(seq_coords_to_int(vec!["2", "3"], 5), Some(11));
    assert_eq!(seq_coords_to_int(vec!["9", "9"], 5), None);
}

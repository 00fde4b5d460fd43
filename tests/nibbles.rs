use webcam_visca::nibbles::{
    int_to_nibbles, list_to_hex, nibbles_to_int, nibbles_to_sec_angle, sec_angle_to_nibbles,
};

#[test]
fn int_to_nibbles_positive_and_negative() {
    assert_eq!(int_to_nibbles(0x1234, 4), vec![1, 2, 3, 4]);
    assert_eq!(int_to_nibbles(-1, 4), vec![0xF, 0xF, 0xF, 0xF]);
    assert_eq!(int_to_nibbles(0x1234, 2), vec![3, 4]);
    assert_eq!(int_to_nibbles(5, 0), Vec::<u8>::new());
}

#[test]
fn nibbles_to_int_two_complement() {
    assert_eq!(nibbles_to_int(&[0xF, 0xF, 0xF, 0xF]), -1);
    assert_eq!(nibbles_to_int(&[0x7, 0xF, 0xF, 0xF]), 32767);
    assert_eq!(nibbles_to_int(&[0x8, 0x0, 0x0, 0x0]), -32768);
    assert_eq!(nibbles_to_int(&[0x0, 0x0, 0xE, 0xB]), 235);
}

#[test]
fn nibble_round_trip_over_four_nibbles() {
    let mut v: i64 = -32768;
    while v < 32768 {
        assert_eq!(nibbles_to_int(&int_to_nibbles(v, 4)), v);
        v += 7;
    }
    assert_eq!(nibbles_to_int(&int_to_nibbles(i64::MIN, 16)), i64::MIN);
    assert_eq!(nibbles_to_int(&int_to_nibbles(i64::MAX, 16)), i64::MAX);
}

#[test]
fn arc_seconds_to_visca_units() {
    // 3600 * 2359 / 36000 = 235.9, rounded toward zero
    assert_eq!(sec_angle_to_nibbles(3600, 5), vec![0, 0, 0, 0xE, 0xB]);
    assert_eq!(sec_angle_to_nibbles(-3600, 4), vec![0xF, 0xF, 0x1, 0x5]);
    // 235 * 36000 / 2359 = 3586.26
    assert_eq!(nibbles_to_sec_angle(&[0, 0, 0xE, 0xB]), 3586);
    assert_eq!(nibbles_to_sec_angle(&[0xF, 0xF, 0x1, 0x5]), -3586);
}

#[test]
fn arc_second_round_trip_loses_at_most_one_unit() {
    let mut v: i64 = -32768;
    while v < 32768 {
        let ns = int_to_nibbles(v, 4);
        let back = nibbles_to_int(&sec_angle_to_nibbles(nibbles_to_sec_angle(&ns), 4));
        if v >= 0 {
            assert!(back == v || back == v - 1);
        } else {
            assert!(back == v || back == v + 1);
        }
        v += 13;
    }
    assert_eq!(nibbles_to_int(&sec_angle_to_nibbles(nibbles_to_sec_angle(&[0, 0x9, 0x3, 0x7]), 4)), 0x937);
}

#[test]
fn hex_listing() {
    assert_eq!(list_to_hex(&[0x81, 0x0A, 0xFF]), "81 0A FF ".to_string());
    assert_eq!(list_to_hex(&[]), String::new());
}

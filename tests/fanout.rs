use webcam_visca::fanout::{frame_message, CaptureAction, TeleportCam};

#[test]
fn frame_message_layout() {
    let m = frame_message(0x0102030405060708, &[0xAA, 0xBB], &[1, 2, 3]);
    assert_eq!(
        m,
        vec![
            0x4A, 0x50, 0x45, 0x47, 0x08, 0x07, 0x06, 0x05, 0x04, 0x03, 0x02, 0x01, 0x02, 0x00,
            0x00, 0x00, 1, 2, 3, 0xAA, 0xBB
        ]
    );
    assert_eq!(&m[..4], b"JPEG");
}

#[test]
fn slow_client_is_dropped_and_fast_one_continues() {
    let mut tc = TeleportCam::new(0);
    assert_eq!(tc.sender_add(1), 1);
    assert_eq!(tc.update_num_clients(), CaptureAction::Start);
    assert_eq!(tc.sender_add(2), 2);
    assert_eq!(tc.update_num_clients(), CaptureAction::Nothing);
    let mut last_ts = 0u64;
    for i in 0..5u64 {
        let ts = 1_000_000 * (i + 1);
        let m = frame_message(ts, &[0xFF, 0xD8, 0xFF, 0xD9], &[]);
        let got = u64::from_le_bytes([m[4], m[5], m[6], m[7], m[8], m[9], m[10], m[11]]);
        assert!(got > last_ts);
        last_ts = got;
        // Client 2 never reads: its queue is full.
        tc.mark_full(2);
    }
    assert!(tc.watchdog(2));
    assert!(!tc.watchdog(1));
    assert_eq!(tc.remove_client(2), 1);
    assert_eq!(tc.client_ids(), vec![1]);
    assert!(!tc.watchdog(1));
    assert_eq!(tc.remove_client(1), 0);
    assert_eq!(tc.update_num_clients(), CaptureAction::Stop);
}

#[test]
fn adding_a_known_client_keeps_one_entry() {
    let mut tc = TeleportCam::new(3);
    tc.sender_add(7);
    assert_eq!(tc.sender_add(7), 1);
    assert_eq!(tc.ncam(), 3);
    assert_eq!(tc.remove_client(9), 1);
}

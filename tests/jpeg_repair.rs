use webcam_visca::error::UVIError;
use webcam_visca::jpeg::get_good_jpeg;

const SOI: [u8; 2] = [0xFF, 0xD8];
const APP0: [u8; 18] = [
    0xFF, 0xE0, 0x00, 0x10, 0x4A, 0x46, 0x49, 0x46, 0x00, 0x01, 0x01, 0x00, 0x00, 0x01, 0x00,
    0x01, 0x00, 0x00,
];
const SOF0: [u8; 13] = [0xFF, 0xC0, 0x00, 0x0B, 0x08, 0x00, 0x08, 0x00, 0x08, 0x01, 0x01, 0x11, 0x00];
const DRI_ONE: [u8; 6] = [0xFF, 0xDD, 0x00, 0x04, 0x00, 0x01];
const SOS: [u8; 10] = [0xFF, 0xDA, 0x00, 0x08, 0x01, 0x01, 0x00, 0x00, 0x3F, 0x00];
const EOI: [u8; 2] = [0xFF, 0xD9];

fn frame(parts: &[&[u8]]) -> Vec<u8> {
    let mut v = Vec::new();
    for p in parts {
        v.extend_from_slice(p);
    }
    v
}

// One block: DC symbol 0 (code 00) then end of block (code 1010), padded.
const ONE_BLOCK: [u8; 1] = [0x2B];

#[test]
fn frame_without_restart_is_copied() {
    let data = frame(&[&SOI, &APP0, &SOF0, &SOS, &ONE_BLOCK, &[0xFF, 0x00], &EOI]);
    assert_eq!(get_good_jpeg(&data).unwrap(), data);
}

#[test]
fn bogus_trailing_ff_is_cut() {
    let data = frame(&[&SOI, &APP0, &SOF0, &DRI_ONE, &SOS, &ONE_BLOCK, &[0xFF, 0x00], &EOI]);
    let expected = frame(&[&SOI, &APP0, &SOF0, &DRI_ONE, &SOS, &ONE_BLOCK, &EOI]);
    assert_eq!(get_good_jpeg(&data).unwrap(), expected);
}

#[test]
fn trailing_bytes_after_end_of_image_are_dropped() {
    let data = frame(&[&SOI, &APP0, &SOF0, &SOS, &ONE_BLOCK, &EOI, &[0x00, 0x00, 0x00]]);
    let expected = frame(&[&SOI, &APP0, &SOF0, &SOS, &ONE_BLOCK, &EOI]);
    assert_eq!(get_good_jpeg(&data).unwrap(), expected);
}

#[test]
fn huffman_table_segments_are_dropped() {
    let mut dht = vec![0xFF, 0xC4, 0x00, 0x1F, 0x00];
    dht.extend_from_slice(&[0, 1, 5, 1, 1, 1, 1, 1, 1, 0, 0, 0, 0, 0, 0, 0]);
    dht.extend_from_slice(&[0, 1, 2, 3, 4, 5, 6, 7, 8, 9, 10, 11]);
    let data = frame(&[&SOI, &APP0, &dht, &SOF0, &SOS, &ONE_BLOCK, &EOI]);
    let expected = frame(&[&SOI, &APP0, &SOF0, &SOS, &ONE_BLOCK, &EOI]);
    assert_eq!(get_good_jpeg(&data).unwrap(), expected);
}

#[test]
fn repair_is_idempotent_on_these_frames() {
    let frames = vec![
        frame(&[&SOI, &APP0, &SOF0, &SOS, &ONE_BLOCK, &[0xFF, 0x00], &EOI]),
        frame(&[&SOI, &APP0, &SOF0, &DRI_ONE, &SOS, &ONE_BLOCK, &[0xFF, 0x00], &EOI]),
    ];
    for f in frames {
        let once = get_good_jpeg(&f).unwrap();
        let twice = get_good_jpeg(&once).unwrap();
        assert_eq!(once, twice);
        assert_eq!(&once[..4], &[0xFF, 0xD8, 0xFF, 0xE0]);
        assert_eq!(&once[once.len() - 2..], &[0xFF, 0xD9]);
    }
}

#[test]
fn short_or_foreign_frames_are_refused() {
    assert_eq!(get_good_jpeg(&[0xFF, 0xD8, 0xFF, 0xE0]).err(), Some(UVIError::BadJpegError));
    let mut data = frame(&[&SOI, &APP0, &SOF0, &SOS, &ONE_BLOCK, &EOI]);
    data[3] = 0xE1;
    assert_eq!(get_good_jpeg(&data).err(), Some(UVIError::BadJpegError));
    // No end-of-image marker: the scan runs off the end.
    let data = frame(&[&SOI, &APP0, &SOF0, &SOS, &ONE_BLOCK, &[0x00; 8]]);
    assert_eq!(get_good_jpeg(&data).err(), Some(UVIError::BadJpegError));
}

#[test]
fn bad_huffman_table_is_refused() {
    let mut dht = vec![0xFF, 0xC4, 0x00, 0x1C, 0x00];
    dht.extend_from_slice(&[3, 0, 0, 0, 0, 0, 0, 0, 0, 0, 0, 0, 0, 0, 0, 0]);
    dht.extend_from_slice(&[0, 1, 2, 3, 4, 5, 6, 7, 8]);
    let data = frame(&[&SOI, &APP0, &dht, &SOF0, &SOS, &ONE_BLOCK, &EOI]);
    assert_eq!(get_good_jpeg(&data).err(), Some(UVIError::HuffmanBadCodeLength));
}

#[test]
fn undecodable_scan_is_refused() {
    let data = frame(&[&SOI, &APP0, &SOF0, &DRI_ONE, &SOS, &[0xFF, 0x00, 0xFF, 0x00], &EOI]);
    assert_eq!(get_good_jpeg(&data).err(), Some(UVIError::HuffmanDecodeError));
}

#[test]
fn each_pass_cuts_one_bogus_stuffed_pair() {
    let data = frame(&[&SOI, &APP0, &SOF0, &DRI_ONE, &SOS, &ONE_BLOCK, &[0xFF, 0x00, 0xFF, 0x00], &EOI]);
    let once = get_good_jpeg(&data).unwrap();
    assert_eq!(once, frame(&[&SOI, &APP0, &SOF0, &DRI_ONE, &SOS, &ONE_BLOCK, &[0xFF, 0x00], &EOI]));
    let twice = get_good_jpeg(&once).unwrap();
    assert_eq!(twice, frame(&[&SOI, &APP0, &SOF0, &DRI_ONE, &SOS, &ONE_BLOCK, &EOI]));
}

#[test]
fn fill_bytes_before_a_marker_are_skipped() {
    let data = frame(&[&SOI, &APP0, &[0xFF], &SOF0, &SOS, &ONE_BLOCK, &EOI]);
    let expected = frame(&[&SOI, &APP0, &SOF0, &SOS, &ONE_BLOCK, &EOI]);
    assert_eq!(get_good_jpeg(&data).unwrap(), expected);
}

#[test]
fn restart_segment_without_interval_is_copied() {
    let rst = [0xFF, 0xD0, 0x2B, 0xFF, 0x00];
    let data = frame(&[&SOI, &APP0, &SOF0, &SOS, &ONE_BLOCK, &rst, &EOI]);
    assert_eq!(get_good_jpeg(&data).unwrap(), data);
}

#[test]
fn restart_segment_with_interval_loses_bogus_pair() {
    let rst = [0xFF, 0xD0, 0x2B, 0xFF, 0x00];
    let data = frame(&[&SOI, &APP0, &SOF0, &DRI_ONE, &SOS, &ONE_BLOCK, &rst, &EOI]);
    let expected = frame(&[&SOI, &APP0, &SOF0, &DRI_ONE, &SOS, &ONE_BLOCK, &[0xFF, 0xD0, 0x2B], &EOI]);
    assert_eq!(get_good_jpeg(&data).unwrap(), expected);
}

#[test]
fn plain_frame_is_a_fixed_point() {
    let rst = [0xFF, 0xD1, 0x2B, 0xFF, 0x00];
    let data = frame(&[&SOI, &APP0, &SOF0, &SOS, &ONE_BLOCK, &[0xFF, 0x00], &rst, &EOI]);
    let once = get_good_jpeg(&data).unwrap();
    assert_eq!(once, data);
    assert_eq!(get_good_jpeg(&once).unwrap(), once);
}

use vigilo::preview::{
    encode_part, encode_preview, preview_finished, route_for, PreviewCursor, PreviewProgress, stream_content_type, EncodeTimes, MjpegParts,
    PreviewStats, Route, JPEG_QUALITY, PREVIEW_WIDTH, SAMPLE_WINDOW,
};
use std::sync::atomic::Ordering;

#[test]
fn part_carries_boundary_type_length_and_image() {
    let part = encode_part(&[0xFF, 0xD8, 0x01]);
    let mut expected =
        b"\r\n--deepscreenframe\r\nContent-Type: image/jpeg\r\nContent-Length: 3\r\n\r\n".to_vec();
    expected.extend_from_slice(&[0xFF, 0xD8, 0x01]);
    assert_eq!(part, expected);
}

#[test]
fn part_length_is_written_in_decimal() {
    let jpeg = vec![7u8; 1234];
    let part = encode_part(&jpeg);
    let head = String::from_utf8(part[..part.len() - 1234].to_vec()).unwrap();
    assert!(head.ends_with("Content-Length: 1234\r\n\r\n"));
    let empty = encode_part(&[]);
    assert!(String::from_utf8(empty).unwrap().ends_with("Content-Length: 0\r\n\r\n"));
}

#[test]
fn stream_content_type_names_the_boundary() {
    assert_eq!(stream_content_type(), "multipart/x-mixed-replace; boundary=deepscreenframe");
}

#[test]
fn routes() {
    assert_eq!(route_for("/stream"), Route::Stream);
    assert_eq!(route_for("/health"), Route::Health);
    assert_eq!(route_for("/"), Route::NotFound);
    assert_eq!(route_for("/stream/"), Route::NotFound);
}

#[test]
fn a_frame_is_staged_once() {
    let mut parts = MjpegParts::new();
    assert!(parts.is_drained());
    assert!(parts.offer(1, &[1, 2, 3]));
    assert!(!parts.is_drained());
    assert!(!parts.offer(1, &[4, 5, 6]));
    let mut out = vec![0u8; 4096];
    let n = parts.read_into(&mut out);
    assert_eq!(out[..n].to_vec(), encode_part(&[1, 2, 3]));
    assert!(parts.is_drained());
    assert!(!parts.offer(1, &[1, 2, 3]));
    assert!(parts.offer(2, &[9]));
}

#[test]
fn reads_hand_out_the_part_in_order() {
    let mut parts = MjpegParts::new();
    parts.offer(5, &[10, 20, 30]);
    let whole = encode_part(&[10, 20, 30]);
    let mut got = Vec::new();
    let mut out = [0u8; 7];
    loop {
        let n = parts.read_into(&mut out);
        if n == 0 {
            break;
        }
        got.extend_from_slice(&out[..n]);
    }
    assert_eq!(got, whole);
    let mut empty: [u8; 0] = [];
    parts.offer(6, &[1]);
    assert_eq!(parts.read_into(&mut empty), 0);
    assert!(!parts.is_drained());
}

#[test]
fn read_leaves_the_rest_of_the_buffer_alone() {
    let mut parts = MjpegParts::new();
    parts.offer(0, &[]);
    let part_len = encode_part(&[]).len();
    let mut out = vec![0xAA; part_len + 3];
    let n = parts.read_into(&mut out);
    assert_eq!(n, part_len);
    assert_eq!(&out[n..], &[0xAA, 0xAA, 0xAA]);
}

#[test]
fn median_of_recent_encode_times() {
    let mut t = EncodeTimes::new();
    assert_eq!(t.record(30), 30);
    assert_eq!(t.record(10), 30);
    assert_eq!(t.record(20), 20);
    assert_eq!(t.record(5), 20);
    assert_eq!(t.record(1), 10);
}

#[test]
fn window_keeps_the_latest_samples() {
    let mut t = EncodeTimes::new();
    for _ in 0..SAMPLE_WINDOW {
        t.record(1000);
    }
    // The old samples leave one at a time; the median follows once more
    // than half the window is new.
    let mut last = 0;
    for i in 0..SAMPLE_WINDOW {
        last = t.record(1);
        if i < SAMPLE_WINDOW / 2 - 1 {
            assert_eq!(last, 1000, "after {i}");
        }
    }
    assert_eq!(last, 1);
}

#[test]
fn preview_stats_start_at_zero() {
    let s = PreviewStats::default();
    assert_eq!(s.encode_p50_us.load(Ordering::Relaxed), 0);
    assert_eq!(s.encoded.load(Ordering::Relaxed), 0);
    assert_eq!(s.dropped.load(Ordering::Relaxed), 0);
}

#[test]
fn preview_constants() {
    assert_eq!(PREVIEW_WIDTH, 640);
    assert_eq!(JPEG_QUALITY, 70);
}

#[test]
fn preview_is_a_jpeg_not_the_pixels() {
    let rgb: Vec<u8> = (0..(8 * 6 * 3)).map(|i| (i * 7 % 251) as u8).collect();
    let jpeg = encode_preview(&rgb, 8, 6, 4, 2).unwrap();
    assert_eq!(&jpeg[..2], &[0xFF, 0xD8]);
    assert_eq!(&jpeg[jpeg.len() - 2..], &[0xFF, 0xD9]);
    assert_ne!(jpeg, rgb);
}

#[test]
fn empty_frame_is_refused() {
    assert_eq!(encode_preview(&[], 0, 4, 2, 2).unwrap_err(), "empty frame");
    assert_eq!(encode_preview(&[], 4, 0, 2, 2).unwrap_err(), "empty frame");
}

#[test]
fn short_frame_and_zero_target_are_refused() {
    let rgb = vec![0u8; 4 * 4 * 3 - 1];
    assert!(encode_preview(&rgb, 4, 4, 2, 2).is_err());
    let rgb = vec![0u8; 4 * 4 * 3];
    assert!(encode_preview(&rgb, 4, 4, 0, 2).is_err());
    assert!(encode_preview(&rgb, 4, 4, 2, 2).is_ok());
}

#[test]
fn a_detection_is_encoded_once() {
    let mut c = PreviewCursor::new();
    assert!(c.take_new(0));
    assert!(!c.take_new(0));
    assert!(c.take_new(1));
    assert!(c.take_new(0));
    assert_eq!(c.last_seq, 0);
}

#[test]
fn preview_stops_with_the_detector() {
    assert!(preview_finished(false, false));
    assert!(!preview_finished(true, false));
    assert!(!preview_finished(false, true));
    assert!(!preview_finished(true, true));
}

#[test]
fn the_preview_depends_on_the_frame() {
    let a: Vec<u8> = (0..(16 * 16 * 3)).map(|i| (i % 256) as u8).collect();
    let b: Vec<u8> = vec![200u8; 16 * 16 * 3];
    let ja = encode_preview(&a, 16, 16, 8, 8).unwrap();
    assert_eq!(ja, encode_preview(&a, 16, 16, 8, 8).unwrap());
    assert_ne!(ja, encode_preview(&b, 16, 16, 8, 8).unwrap());
}

#[test]
fn a_new_detection_is_encoded_once_and_counted() {
    let rgb = vec![10u8; 4 * 4 * 3];
    let mut p = PreviewProgress::new();
    assert_eq!((p.encoded, p.dropped), (0, 0));
    let jpeg = p.on_detection(1, &rgb, 4, 4, 2, 2).unwrap().unwrap();
    assert_eq!(jpeg, encode_preview(&rgb, 4, 4, 2, 2).unwrap());
    assert_eq!((p.encoded, p.dropped), (1, 0));
    assert!(p.on_detection(1, &rgb, 4, 4, 2, 2).is_none());
    assert_eq!((p.encoded, p.dropped), (1, 0));
    assert_eq!(p.on_detection(2, &[], 0, 4, 2, 2).unwrap().unwrap_err(), "empty frame");
    assert_eq!((p.encoded, p.dropped), (1, 1));
    assert!(p.on_detection(2, &rgb, 4, 4, 2, 2).is_none());
    assert_eq!(p.cursor.last_seq, 2);
    assert!(p.on_detection(3, &rgb, 4, 4, 2, 2).unwrap().is_ok());
    assert_eq!((p.encoded, p.dropped), (2, 1));
}

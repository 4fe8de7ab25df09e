use vigilo::capture::{
    busy_or, check_rgb, frame_pixels, grab_timeout_error, next_seq, take_frame, Grabbed, BUSY_HELP,
    GRAB_TIMEOUT_MS,
};
use vigilo::error::DetectError;

fn camera_message(e: DetectError) -> String {
    match e {
        DetectError::Camera(m) => m,
        other => panic!("expected a camera error, got {other:?}"),
    }
}

#[test]
fn busy_camera_gets_the_one_owner_explanation() {
    let m = camera_message(busy_or("could not open camera 0: device is BUSY".to_string()));
    assert_eq!(m, format!("could not open camera 0: device is BUSY{BUSY_HELP}"));
    assert!(m.contains("Windows lets exactly one process own a webcam."));
}

#[test]
fn every_busy_marker_is_recognised() {
    for detail in [
        "Resource In Use",
        "Access is denied",
        "permission DENIED",
        "HRESULT 0x800700AA",
        "the device is busy",
    ] {
        let m = camera_message(busy_or(detail.to_string()));
        assert!(m.starts_with(detail));
        assert!(m.ends_with("then try again."), "{detail}");
    }
}

#[test]
fn other_camera_failures_are_passed_through() {
    let m = camera_message(busy_or("Render stream failed".to_string()));
    assert_eq!(m, "Render stream failed");
    let m = camera_message(busy_or(String::new()));
    assert_eq!(m, "");
}

#[test]
fn grab_timeout_is_three_seconds() {
    assert_eq!(GRAB_TIMEOUT_MS, 3000);
}

#[test]
fn missing_plane_is_an_error() {
    let mut packed = Vec::new();
    let e = frame_pixels(None, 2, 2, 6, &mut packed).unwrap_err();
    assert_eq!(camera_message(e), "frame carried no pixel plane");
}

#[test]
fn tightly_packed_plane_is_taken_as_is() {
    let plane: Vec<u8> = (0..12).collect();
    let mut packed = vec![9, 9];
    let data = frame_pixels(Some(&plane), 2, 2, 6, &mut packed).unwrap();
    assert_eq!(data, plane);
    assert_eq!(packed, vec![9, 9]);
}

#[test]
fn padded_rows_are_repacked() {
    // 2x3 pixels, rows padded from 6 to 8 bytes.
    let plane: Vec<u8> = vec![
        1, 2, 3, 4, 5, 6, 0, 0, //
        7, 8, 9, 10, 11, 12, 0, 0, //
        13, 14, 15, 16, 17, 18,
    ];
    let mut packed = vec![42; 5];
    let data = frame_pixels(Some(&plane), 2, 3, 8, &mut packed).unwrap();
    assert_eq!(data, (1..=18).collect::<Vec<u8>>());
    assert_eq!(packed, data);
}

#[test]
fn a_stalled_camera_is_named_with_the_timeout() {
    assert_eq!(
        camera_message(grab_timeout_error(0)),
        "camera 0 produced no frame within 3000 ms"
    );
    assert_eq!(
        camera_message(grab_timeout_error(4294967295)),
        "camera 4294967295 produced no frame within 3000 ms"
    );
}

#[test]
fn a_frame_that_is_not_rgb_is_refused() {
    assert!(check_rgb(true, "Rgb24").is_ok());
    let m = camera_message(check_rgb(false, "Bgr24").unwrap_err());
    assert_eq!(
        m,
        "camera returned Bgr24, expected Rgb24. The pipeline is RGB end to end and a silent \
         channel swap degrades detection rather than breaking it."
    );
}

#[test]
fn frames_are_numbered_from_one() {
    assert_eq!(next_seq(0), 1);
    assert_eq!(next_seq(41), 42);
}

fn grabbed(is_rgb24: bool, width: u32, height: u32, stride: usize, plane: Option<&[u8]>) -> Grabbed<'_> {
    Grabbed {
        is_rgb24,
        format_name: if is_rgb24 { "Rgb24".to_string() } else { "Bgr24".to_string() },
        width,
        height,
        stride,
        plane,
    }
}

#[test]
fn an_empty_grab_is_a_stall_not_the_end() {
    let mut seq = 4u64;
    let mut packed = vec![1, 2];
    let e = take_frame(&mut seq, 2, None, &mut packed).unwrap_err();
    assert_eq!(camera_message(e), "camera 2 produced no frame within 3000 ms");
    assert_eq!(seq, 4);
    assert_eq!(packed, vec![1, 2]);
}

#[test]
fn refused_grabs_leave_the_count_alone() {
    let plane: Vec<u8> = (0..12).collect();
    let mut seq = 7u64;
    let mut packed = Vec::new();
    let e = take_frame(&mut seq, 0, Some(grabbed(false, 2, 2, 6, Some(&plane))), &mut packed)
        .unwrap_err();
    assert_eq!(
        camera_message(e),
        "camera returned Bgr24, expected Rgb24. The pipeline is RGB end to end and a silent channel swap degrades detection rather than breaking it."
    );
    let e = take_frame(&mut seq, 0, Some(grabbed(true, 2, 2, 6, None)), &mut packed).unwrap_err();
    assert_eq!(camera_message(e), "frame carried no pixel plane");
    assert_eq!(seq, 7);
}

#[test]
fn frames_are_numbered_one_two_three() {
    let plane: Vec<u8> = (0..16).collect();
    let mut seq = 0u64;
    let mut packed = Vec::new();
    let f = take_frame(&mut seq, 0, Some(grabbed(true, 1, 2, 8, Some(&plane))), &mut packed).unwrap();
    assert_eq!(f.data, vec![0, 1, 2, 8, 9, 10]);
    assert_eq!((f.width, f.height, f.seq), (1, 2, 1));
    assert!(take_frame(&mut seq, 0, None, &mut packed).is_err());
    let f = take_frame(&mut seq, 0, Some(grabbed(true, 2, 1, 6, Some(&plane[..6]))), &mut packed).unwrap();
    assert_eq!(f.data, vec![0, 1, 2, 3, 4, 5]);
    assert_eq!(f.seq, 2);
    let f = take_frame(&mut seq, 0, Some(grabbed(true, 1, 1, 3, Some(&plane[..3]))), &mut packed).unwrap();
    assert_eq!(f.seq, 3);
    assert_eq!(seq, 3);
}

use vigilo::shell::{
    explain, first_dir_containing, first_present, marker_paths, Args, FFMPEG_HELP, WEBCAM_HELP,
};

fn args(v: &[&str]) -> Args {
    Args::parse(v.iter().map(|s| s.to_string()).collect())
}

#[test]
fn no_arguments_mean_camera_zero_unpaced() {
    let a = args(&[]);
    assert_eq!(a.source, "camera:0");
    assert_eq!(a.config, None);
    assert!(!a.paced);
}

#[test]
fn source_config_and_paced_are_read() {
    let a = args(&["--source", "camera:2", "--config", "dev.toml", "--paced"]);
    assert_eq!(a.source, "camera:2");
    assert_eq!(a.config.as_deref(), Some("dev.toml"));
    assert!(a.paced);
}

#[test]
fn replay_sources_are_always_paced() {
    assert!(args(&["--source", "file:clip.mp4"]).paced);
    assert!(args(&["--source", "dir:frames"]).paced);
    assert!(!args(&["--source", "camera:1"]).paced);
}

#[test]
fn unknown_arguments_are_ignored_and_later_ones_win() {
    let a = args(&["--verbose", "--source", "camera:1", "x", "--source", "camera:3"]);
    assert_eq!(a.source, "camera:3");
    assert!(!a.paced);
}

#[test]
fn trailing_flags_without_values() {
    let a = args(&["--config", "a.toml", "--config"]);
    assert_eq!(a.config, None);
    let a = args(&["--source"]);
    assert_eq!(a.source, "camera:0");
}

#[test]
fn a_flag_value_is_not_read_as_a_flag() {
    let a = args(&["--source", "--paced"]);
    assert_eq!(a.source, "--paced");
    assert!(a.paced);
}

#[test]
fn busy_camera_is_explained() {
    let e = explain("camera 0 already in use");
    assert_eq!(e, format!("camera 0 already in use{WEBCAM_HELP}"));
    assert!(explain("Could not run graph: x").ends_with("then restart the viewer."));
}

#[test]
fn missing_ffmpeg_is_explained() {
    let e = explain("could not start ffmpeg: not found");
    assert_eq!(e, format!("could not start ffmpeg: not found{FFMPEG_HELP}"));
    assert!(explain("could not run ffprobe").ends_with("camera: and file: sources."));
}

#[test]
fn other_failures_are_unchanged() {
    assert_eq!(explain("model file missing"), "model file missing");
    assert_eq!(explain("Could not start ffmpeg"), "Could not start ffmpeg");
}

#[test]
fn no_candidate_directory_holds_the_marker() {
    let c = vec!["/no/such/dir/a".to_string(), "/no/such/dir/b".to_string()];
    assert_eq!(first_dir_containing(&c, "ffmpeg.exe"), None);
    assert_eq!(first_dir_containing(&Vec::new(), "ffmpeg.exe"), None);
}

#[test]
fn the_marker_is_looked_for_inside_each_candidate() {
    // Run from the package root: `src/lib.rs` exists, `tests/lib.rs` does not.
    let c = vec!["tests".to_string(), "src".to_string()];
    assert_eq!(first_dir_containing(&c, "lib.rs").as_deref(), Some("src"));
}

#[test]
fn the_first_present_candidate_is_chosen() {
    let c = vec!["a".to_string(), "b".to_string(), "c".to_string()];
    assert_eq!(first_present(&c, &vec![false, true, true]).as_deref(), Some("b"));
    assert_eq!(first_present(&c, &vec![true, true, true]).as_deref(), Some("a"));
    assert_eq!(first_present(&c, &vec![false, false, true]).as_deref(), Some("c"));
    assert_eq!(first_present(&c, &vec![false, false, false]), None);
    assert_eq!(first_present(&Vec::new(), &Vec::new()), None);
}

#[test]
fn markers_are_looked_for_inside_each_candidate() {
    let m = marker_paths(&vec!["a".to_string(), "b/".to_string()], "ffmpeg.exe");
    assert_eq!(m.len(), 2);
    assert!(m[0] == "a/ffmpeg.exe" || m[0] == "a\\ffmpeg.exe");
    assert_eq!(m[1], "b/ffmpeg.exe");
}

#[test]
fn a_marker_in_an_empty_directory_is_the_bare_name() {
    let m = marker_paths(&vec![String::new()], "ffmpeg.exe");
    assert_eq!(m, vec!["ffmpeg.exe".to_string()]);
}

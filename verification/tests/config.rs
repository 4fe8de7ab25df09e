use vigilo::config::{
    bucket_names_in_order, check_object_buckets, name_before, severity_names_in_order, default_allowlist, default_object_buckets, CaptureBackend,
    CaptureConfig, ExecutionProviderPref, FusionConfig, ModelPaths, ModelProviders, ModelSlot,
    ObjectBucket, RuntimeConfig, Severity, Variant,
};
use vigilo::error::DetectError;

fn config_message(r: Result<(), DetectError>) -> String {
    match r {
        Err(DetectError::Config(m)) => m,
        other => panic!("expected a config error, got {other:?}"),
    }
}

fn bucket(classes: &[&str]) -> ObjectBucket {
    ObjectBucket { classes: classes.iter().map(|s| s.to_string()).collect() }
}

#[test]
fn capture_defaults_are_720p_mjpeg_on_camera_zero() {
    let c = CaptureConfig::default();
    assert_eq!(c.device_index, 0);
    assert_eq!(c.width, 1280);
    assert_eq!(c.height, 720);
    assert_eq!(c.fps, 30);
    assert!(c.prefer_mjpeg);
    assert_eq!(c.backend, CaptureBackend::Dshow);
}

#[test]
fn default_capture_resolution_is_valid() {
    assert!(CaptureConfig::default().check_resolution().is_ok());
}

#[test]
fn zero_width_or_height_is_rejected() {
    let mut c = CaptureConfig::default();
    c.width = 0;
    assert_eq!(config_message(c.check_resolution()), "capture resolution must be non-zero");
    let mut c = CaptureConfig::default();
    c.height = 0;
    assert_eq!(config_message(c.check_resolution()), "capture resolution must be non-zero");
}

#[test]
fn backends_name_themselves_for_the_capture_library() {
    assert_eq!(CaptureBackend::Dshow.extra_info(), "dshow");
    assert_eq!(CaptureBackend::Msmf.extra_info(), "msmf");
    assert_eq!(CaptureBackend::default(), CaptureBackend::Dshow);
}

#[test]
fn model_slots_are_named() {
    assert_eq!(ModelSlot::Face.as_str(), "face");
    assert_eq!(ModelSlot::Pose.as_str(), "pose");
    assert_eq!(ModelSlot::Gaze.as_str(), "gaze");
    assert_eq!(ModelSlot::Objects.as_str(), "objects");
    assert_eq!(ModelSlot::Identity.as_str(), "identity");
}

#[test]
fn conventional_table_follows_the_slots() {
    let slots = [
        ModelSlot::Face,
        ModelSlot::Pose,
        ModelSlot::Gaze,
        ModelSlot::Objects,
        ModelSlot::Identity,
    ];
    for (i, slot) in slots.iter().enumerate() {
        assert_eq!(ModelPaths::CONVENTIONAL[i].0, slot.as_str());
    }
    assert_eq!(ModelPaths::CONVENTIONAL[3].1, "yolox_nano.onnx");
}

#[test]
fn variant_defaults_to_auto() {
    assert_eq!(Variant::default(), Variant::Auto);
    let p = ModelPaths::default();
    assert!(p.face.is_none() && p.pose.is_none() && p.gaze.is_none());
    assert!(p.objects.is_none() && p.identity.is_none());
    assert_eq!(p.variant, Variant::Auto);
}

#[test]
fn providers_default_to_directml_everywhere() {
    let p = ModelProviders::default();
    for slot in [
        ModelSlot::Face,
        ModelSlot::Pose,
        ModelSlot::Gaze,
        ModelSlot::Objects,
        ModelSlot::Identity,
    ] {
        assert_eq!(p.for_slot(slot), ExecutionProviderPref::DirectMlThenCpu);
    }
    assert_eq!(ExecutionProviderPref::default(), ExecutionProviderPref::CpuOnly);
}

#[test]
fn providers_are_looked_up_per_slot() {
    let mut p = ModelProviders::default();
    p.pose = ExecutionProviderPref::CpuOnly;
    assert_eq!(p.for_slot(ModelSlot::Pose), ExecutionProviderPref::CpuOnly);
    assert_eq!(p.for_slot(ModelSlot::Face), ExecutionProviderPref::DirectMlThenCpu);
    assert_eq!(p.for_slot(ModelSlot::Identity), ExecutionProviderPref::DirectMlThenCpu);
}

#[test]
fn runtime_defaults() {
    let r = RuntimeConfig::default();
    assert_eq!(r.intra_threads_small, 2);
    assert_eq!(r.intra_threads_large, 1);
    assert_eq!(r.inter_threads, 1);
    assert_eq!(r.dynamic_block_base, 4);
    assert_eq!(r.warmup_iters, 5);
    assert_eq!(r.variant_bench_iters, 20);
    assert!(!r.allow_spinning);
    assert_eq!(r.evidence_per_minute, 6);
    assert_eq!(r.providers, ModelProviders::default());
}

#[test]
fn explicit_model_paths_win_over_found_files() {
    let mut p = ModelPaths::default();
    p.face = Some("mine/face.onnx".to_string());
    let found = vec![
        Some("models/face_detection_yunet_2023mar.onnx".to_string()),
        None,
        Some("models/mobileone_s0_gaze.onnx".to_string()),
        None,
        Some("models/w600k_mbf.onnx".to_string()),
    ];
    p.fill_missing_from_found(&found);
    assert_eq!(p.face.as_deref(), Some("mine/face.onnx"));
    assert_eq!(p.pose, None);
    assert_eq!(p.gaze.as_deref(), Some("models/mobileone_s0_gaze.onnx"));
    assert_eq!(p.objects, None);
    assert_eq!(p.identity.as_deref(), Some("models/w600k_mbf.onnx"));
    assert_eq!(p.variant, Variant::Auto);
}

#[test]
fn filling_twice_changes_nothing_more() {
    let found = vec![
        Some("a".to_string()),
        Some("b".to_string()),
        None,
        Some("d".to_string()),
        None,
    ];
    let mut p = ModelPaths::default();
    p.fill_missing_from_found(&found);
    let once = p.clone();
    p.fill_missing_from_found(&found);
    assert_eq!(p.face, once.face);
    assert_eq!(p.pose, once.pose);
    assert_eq!(p.gaze, once.gaze);
    assert_eq!(p.objects, once.objects);
    assert_eq!(p.identity, once.identity);
}

#[test]
fn filling_from_a_missing_directory_sets_nothing() {
    let mut p = ModelPaths::default();
    p.pose = Some("explicit.onnx".to_string());
    p.fill_missing_from_dir("/no/such/directory/for/models");
    assert_eq!(p.face, None);
    assert_eq!(p.pose.as_deref(), Some("explicit.onnx"));
    assert_eq!(p.gaze, None);
    assert_eq!(p.objects, None);
    assert_eq!(p.identity, None);
}

#[test]
fn default_object_buckets_are_valid() {
    let b = default_object_buckets();
    assert_eq!(b.len(), 2);
    assert_eq!(b[0].0, "book");
    assert_eq!(b[0].1, bucket(&["book"]));
    assert_eq!(b[1].0, "handheld_device");
    assert_eq!(b[1].1, bucket(&["cell phone", "remote"]));
    assert!(check_object_buckets(&b).is_ok());
}

#[test]
fn default_allowlist_is_phone_and_book() {
    assert_eq!(default_allowlist(), vec!["cell phone".to_string(), "book".to_string()]);
}

#[test]
fn empty_bucket_is_rejected() {
    let b = vec![("phones".to_string(), ObjectBucket::default())];
    assert_eq!(
        config_message(check_object_buckets(&b)),
        "objects.buckets.phones lists no classes, so it can never fire"
    );
}

#[test]
fn non_coco_class_is_rejected() {
    let b = vec![("phones".to_string(), bucket(&["cell phone", "smartphone"]))];
    assert_eq!(
        config_message(check_object_buckets(&b)),
        "objects.buckets.phones lists \"smartphone\", which is not a COCO class this model can produce"
    );
}

#[test]
fn first_faulty_bucket_is_reported() {
    let b = vec![
        ("a".to_string(), bucket(&["book"])),
        ("b".to_string(), bucket(&["tablet"])),
        ("c".to_string(), ObjectBucket::default()),
    ];
    assert_eq!(
        config_message(check_object_buckets(&b)),
        "objects.buckets.b lists \"tablet\", which is not a COCO class this model can produce"
    );
    assert!(check_object_buckets(&Vec::new()).is_ok());
}

#[test]
fn coco_class_names_are_exact() {
    let b = vec![("x".to_string(), bucket(&["Cell Phone"]))];
    assert!(check_object_buckets(&b).is_err());
    let b = vec![("x".to_string(), bucket(&["toothbrush", "person", "tv"]))];
    assert!(check_object_buckets(&b).is_ok());
}

#[test]
fn fusion_defaults() {
    let f = FusionConfig::default();
    assert_eq!(f.signal_lost_ms, 5000);
    assert_eq!(f.signal_lost_clear_ms, 1500);
    assert_eq!(f.severity.len(), 8);
    assert_eq!(f.severity_of("never_seen"), Severity::High);
    assert_eq!(f.severity_of("no_face"), Severity::High);
    assert_eq!(f.severity_of("multiple_faces"), Severity::Critical);
    assert_eq!(f.severity_of("head_turned_away"), Severity::Medium);
    assert_eq!(f.severity_of("gaze_off_screen"), Severity::Low);
    assert_eq!(f.severity_of("prohibited_object"), Severity::High);
    assert_eq!(f.severity_of("identity_mismatch"), Severity::Critical);
    assert_eq!(f.severity_of("signal_lost"), Severity::Critical);
}

#[test]
fn unlisted_violation_kind_is_medium() {
    let mut f = FusionConfig::default();
    assert_eq!(f.severity_of("something_new"), Severity::Medium);
    f.severity.clear();
    assert_eq!(f.severity_of("never_seen"), Severity::Medium);
}

#[test]
fn default_severities_are_in_name_order() {
    let f = FusionConfig::default();
    let names: Vec<&str> = f.severity.iter().map(|(k, _)| k.as_str()).collect();
    let mut sorted = names.clone();
    sorted.sort();
    sorted.dedup();
    assert_eq!(names, sorted);
}

#[test]
fn names_sort_as_a_map_walks_them() {
    assert!(name_before("book", "handheld_device"));
    assert!(name_before("never_seen", "no_face"));
    assert!(name_before("no", "no_face"));
    assert!(!name_before("no_face", "no"));
    assert!(!name_before("book", "book"));
    assert!(name_before("", "a"));
    assert!(name_before("Z", "a"));
}

#[test]
fn table_order_is_checked() {
    assert!(bucket_names_in_order(&default_object_buckets()));
    assert!(severity_names_in_order(&FusionConfig::default().severity));
    let b = vec![("b".to_string(), bucket(&["book"])), ("a".to_string(), bucket(&["book"]))];
    assert!(!bucket_names_in_order(&b));
    let b = vec![("a".to_string(), bucket(&["book"])), ("a".to_string(), bucket(&["book"]))];
    assert!(!bucket_names_in_order(&b));
    assert!(bucket_names_in_order(&Vec::new()));
    let s = vec![("x".to_string(), Severity::Low), ("w".to_string(), Severity::Low)];
    assert!(!severity_names_in_order(&s));
}

#[test]
fn conventional_candidates_join_each_file_onto_the_directory() {
    let c = ModelPaths::conventional_candidates("models");
    assert_eq!(c.len(), 5);
    for (i, p) in c.iter().enumerate() {
        let file = ModelPaths::CONVENTIONAL[i].1;
        assert!(
            *p == format!("models/{file}") || *p == format!("models\\{file}"),
            "{p}"
        );
    }
}

#[test]
fn conventional_candidates_in_an_empty_directory_are_the_bare_names() {
    let c = ModelPaths::conventional_candidates("");
    for (i, p) in c.iter().enumerate() {
        assert_eq!(p, ModelPaths::CONVENTIONAL[i].1);
    }
    let c = ModelPaths::conventional_candidates("models/");
    assert_eq!(c[3], "models/yolox_nano.onnx");
}

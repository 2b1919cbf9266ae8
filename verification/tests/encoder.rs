use flexdisplay_host::capture::Capture;
use flexdisplay_host::encoder::{
    amf_device_from_pre_args, amf_pre_args, available_h264_encoders, build_encoder_candidates,
    cpu_threads_from, encoder_extra_args, gpu_info_from_parts, record_probe_failure, record_probe_success,
    CandidateBuildOptions, EncoderCandidate, GpuInfo, GpuVendorInfo, MAX_FAILED_PROBE_KEYS,
};
use flexdisplay_host::settings::{HostSettings, ProbeCache};

fn s(v: &str) -> String {
    v.to_string()
}

fn gpu(name: &str) -> GpuInfo {
    GpuInfo { index: 0, name: s(name), driver_version: s("1.0") }
}

fn candidate(encoder: &str, capture: Capture, nvenc: Option<u32>, amf: Option<u32>) -> EncoderCandidate {
    EncoderCandidate { encoder: s(encoder), capture, pre_input_args: vec![], nvenc_gpu: nvenc, amf_device: amf }
}

fn summary(list: &[EncoderCandidate]) -> Vec<String> {
    list.iter()
        .map(|c| format!("{}/{}/{:?}/{:?}/{}", c.encoder, c.capture.as_str(), c.nvenc_gpu, c.amf_device, c.pre_input_args.join(" ")))
        .collect()
}

#[test]
fn vendors_from_adapter_names() {
    let v = GpuVendorInfo::from_gpus(&[gpu("NVIDIA GeForce RTX 3060"), gpu("AMD Radeon(TM) Graphics")]);
    assert_eq!(v, GpuVendorInfo { has_nvidia: true, has_amd: true, has_intel: false });
    let v = GpuVendorInfo::from_gpus(&[gpu("Intel(R) UHD Graphics 770")]);
    assert_eq!(v, GpuVendorInfo { has_nvidia: false, has_amd: false, has_intel: true });
    let v = GpuVendorInfo::from_gpus(&[gpu("Quadro P400")]);
    assert!(v.has_nvidia);
    assert_eq!(GpuVendorInfo::from_gpus(&[]), GpuVendorInfo::default());
}

#[test]
fn gpu_info_defaults() {
    let g = gpu_info_from_parts(2, None, None);
    assert_eq!(g.index, 2);
    assert_eq!(g.name, "Unknown GPU");
    assert_eq!(g.driver_version, "");
    let g = gpu_info_from_parts(0, Some(s("RTX")), Some(s("31.0")));
    assert_eq!((g.name.as_str(), g.driver_version.as_str()), ("RTX", "31.0"));
}

#[test]
fn amf_device_is_read_back() {
    assert_eq!(amf_device_from_pre_args(&[s("-init_hw_device"), s("d3d11va=amf_dx:2")]), Some(2));
    assert_eq!(amf_device_from_pre_args(&[s("-init_hw_device"), s("d3d11va=amf_dx:+7")]), Some(7));
    assert_eq!(amf_device_from_pre_args(&[s("-init_hw_device"), s("d3d11va=amf_dx:")]), None);
    assert_eq!(amf_device_from_pre_args(&[s("-init_hw_device"), s("d3d11va=amf_dx:-1")]), None);
    assert_eq!(amf_device_from_pre_args(&[s("-hwaccel"), s("d3d11va=amf_dx:2")]), None);
    assert_eq!(amf_device_from_pre_args(&[s("-init_hw_device")]), None);
    assert_eq!(amf_device_from_pre_args(&[]), None);
    for idx in [0u32, 9, 123, u32::MAX] {
        assert_eq!(amf_device_from_pre_args(&amf_pre_args(idx)), Some(idx));
    }
    assert_eq!(amf_pre_args(3), vec![s("-init_hw_device"), s("d3d11va=amf_dx:3")]);
}

#[test]
fn available_encoders_filter_by_listing_and_vendor() {
    let listing = " V....D h264_nvenc NVIDIA NVENC\n V....D h264_amf AMD AMF\n V....D libx264 x264\n V....D h264_qsv QSV\n";
    let nvidia = [gpu("NVIDIA GeForce GTX 1660")];
    assert_eq!(available_h264_encoders(false, Some(listing), &nvidia), vec![s("h264_nvenc"), s("libx264")]);
    let both = [gpu("NVIDIA GeForce"), gpu("Intel Iris"), gpu("Radeon")];
    let upper = listing.to_uppercase();
    assert_eq!(
        available_h264_encoders(false, Some(upper.as_str()), &both),
        vec![s("h264_nvenc"), s("h264_qsv"), s("h264_amf"), s("libx264")]
    );
    assert_eq!(available_h264_encoders(true, Some(listing), &nvidia), vec![s("libx264")]);
    assert_eq!(available_h264_encoders(false, None, &nvidia), vec![s("libx264")]);
    assert_eq!(available_h264_encoders(false, Some("h264_nvenc"), &[]), vec![s("libx264")]);
}

#[test]
fn extra_args_per_encoder() {
    let x = encoder_extra_args("libx264", 8);
    assert_eq!(x[0], "-preset");
    assert_eq!(x[1], "ultrafast");
    assert_eq!(
        x.last().unwrap(),
        "bframes=0:scenecut=0:ref=1:cabac=0:rc-lookahead=0:sync-lookahead=0:repeat-headers=1:aud=1:sliced-threads=1"
    );
    assert!(encoder_extra_args("libx264", 2).last().unwrap().ends_with("sliced-threads=0"));
    assert_eq!(encoder_extra_args("h264_qsv", 4), vec!["-preset", "veryfast", "-async_depth", "1", "-bf", "0"]);
    let nv = encoder_extra_args("h264_nvenc", 4);
    assert_eq!(nv.len(), 22);
    let has_pair = |a: &str, b: &str| nv.windows(2).any(|w| w[0] == a && w[1] == b);
    assert!(has_pair("-level", "5.1"));
    assert!(nv.contains(&s("-no-scenecut")));
    assert!(has_pair("-forced-idr", "0"));
    assert!(has_pair("-strict_gop", "1"));
    assert_eq!(encoder_extra_args("h264_amf", 4).len(), 20);
    assert_eq!(encoder_extra_args("mpeg4", 4), vec!["-bf", "0"]);
}

#[test]
fn probe_success_and_failure_are_remembered() {
    let mut settings = HostSettings::default();
    let c = candidate("h264_nvenc", Capture::Ddagrab, Some(1), None);
    record_probe_failure(&mut settings, &c);
    record_probe_failure(&mut settings, &c);
    assert_eq!(settings.failed_probe_keys, vec![s("h264_nvenc/Ddagrab/gpu1")]);
    record_probe_success(&mut settings, &c);
    assert!(settings.failed_probe_keys.is_empty());
    let cache = settings.encoder_probe_cache.clone().unwrap();
    assert_eq!((cache.encoder.as_str(), cache.capture.as_str(), cache.nvenc_gpu, cache.amf_device), ("h264_nvenc", "ddagrab", Some(1), None));
}

#[test]
fn failed_probe_list_keeps_newest_keys() {
    let mut settings = HostSettings::default();
    for i in 0..40u32 {
        record_probe_failure(&mut settings, &candidate("h264_amf", Capture::Gdigrab, None, Some(i)));
        assert!(settings.failed_probe_keys.len() <= MAX_FAILED_PROBE_KEYS);
    }
    assert_eq!(settings.failed_probe_keys.len(), 32);
    assert_eq!(settings.failed_probe_keys[0], "h264_amf/Gdigrab/amf8");
    assert_eq!(settings.failed_probe_keys[31], "h264_amf/Gdigrab/amf39");
}

fn opts<'a>(
    available: &'a [String],
    preferred: Option<&'a str>,
    lock: bool,
    settings: &'a HostSettings,
    gpus: &'a [GpuInfo],
) -> CandidateBuildOptions<'a> {
    CandidateBuildOptions {
        available_encoders: available,
        preferred_encoder: preferred,
        manual_encoder_lock: lock,
        stream_mode: "mirror",
        capture_env: None,
        settings,
        gpus,
        force_software: false,
    }
}

#[test]
fn candidates_for_an_nvidia_machine() {
    let available = vec![s("h264_nvenc"), s("libx264")];
    let settings = HostSettings::default();
    let gpus = [gpu("NVIDIA GeForce RTX 4070")];
    let list = build_encoder_candidates(&opts(&available, None, false, &settings, &gpus));
    assert_eq!(
        summary(&list),
        vec![
            "h264_nvenc/ddagrab/Some(0)/None/",
            "h264_nvenc/ddagrab/None/None/",
            "h264_nvenc/gdigrab/Some(0)/None/",
            "h264_nvenc/gdigrab/None/None/",
            "libx264/ddagrab/None/None/",
            "libx264/gdigrab/None/None/",
        ]
    );
}

#[test]
fn candidates_with_manual_lock_stay_on_preferred() {
    let available = vec![s("h264_nvenc"), s("libx264")];
    let settings = HostSettings::default();
    let gpus = [gpu("NVIDIA GeForce RTX 4070")];
    let list = build_encoder_candidates(&opts(&available, Some("libx264"), true, &settings, &gpus));
    assert_eq!(summary(&list), vec!["libx264/ddagrab/None/None/", "libx264/gdigrab/None/None/"]);
    let list = build_encoder_candidates(&opts(&available, Some("h264_qsv"), true, &settings, &gpus));
    assert!(list.is_empty());
}

#[test]
fn candidates_skip_failed_and_start_with_cache() {
    let available = vec![s("h264_nvenc"), s("libx264")];
    let mut settings = HostSettings::default();
    settings.failed_probe_keys = vec![s("libx264/Ddagrab/default"), s("h264_nvenc/Ddagrab/default")];
    settings.encoder_probe_cache = Some(ProbeCache { encoder: s("h264_nvenc"), capture: s("gdigrab"), nvenc_gpu: Some(0), amf_device: None });
    let gpus = [gpu("NVIDIA GeForce RTX 4070")];
    let list = build_encoder_candidates(&opts(&available, None, false, &settings, &gpus));
    assert_eq!(
        summary(&list),
        vec![
            "h264_nvenc/gdigrab/Some(0)/None/",
            "h264_nvenc/ddagrab/Some(0)/None/",
            "h264_nvenc/gdigrab/None/None/",
            "libx264/gdigrab/None/None/",
        ]
    );
}

#[test]
fn candidates_for_an_amd_machine_with_preferred_device() {
    let available = vec![s("h264_amf"), s("libx264")];
    let mut settings = HostSettings::default();
    settings.preferred_amf_device = Some(1);
    let gpus = [gpu("AMD Radeon RX 7600"), gpu("AMD Radeon Graphics")];
    let list = build_encoder_candidates(&opts(&available, None, false, &settings, &gpus));
    assert_eq!(
        summary(&list),
        vec![
            "h264_amf/ddagrab/None/Some(1)/-init_hw_device d3d11va=amf_dx:1",
            "h264_amf/ddagrab/None/Some(0)/-init_hw_device d3d11va=amf_dx:0",
            "h264_amf/ddagrab/None/None/",
            "h264_amf/gdigrab/None/Some(1)/-init_hw_device d3d11va=amf_dx:1",
            "h264_amf/gdigrab/None/Some(0)/-init_hw_device d3d11va=amf_dx:0",
            "h264_amf/gdigrab/None/None/",
            "libx264/ddagrab/None/None/",
            "libx264/gdigrab/None/None/",
        ]
    );
}

#[test]
fn forced_software_skips_hardware() {
    let available = vec![s("h264_nvenc"), s("libx264")];
    let settings = HostSettings::default();
    let gpus = [gpu("NVIDIA GeForce RTX 4070")];
    let mut o = opts(&available, None, false, &settings, &gpus);
    o.force_software = true;
    o.capture_env = Some("gdigrab");
    let list = build_encoder_candidates(&o);
    assert_eq!(summary(&list), vec!["libx264/gdigrab/None/None/", "libx264/ddagrab/None/None/"]);
}

#[test]
fn failed_probe_keys_use_the_documented_form() {
    let mut settings = HostSettings::default();
    record_probe_failure(&mut settings, &candidate("h264_nvenc", Capture::Gdigrab, Some(0), None));
    assert_eq!(settings.failed_probe_keys, vec![s("h264_nvenc/Gdigrab/gpu0")]);
    assert!(settings.encoder_probe_cache.is_none());
    assert_eq!(settings.preferred_encoder, None);
}

#[test]
fn invalid_nvenc_index_is_not_tried() {
    let available = vec![s("h264_nvenc"), s("libx264")];
    let mut settings = HostSettings::default();
    settings.preferred_nvenc_gpu = Some(5);
    settings.preferred_amf_device = Some(7);
    settings.encoder_probe_cache = Some(ProbeCache { encoder: s("h264_nvenc"), capture: s("ddagrab"), nvenc_gpu: Some(5), amf_device: None });
    let gpus = [gpu("NVIDIA GeForce RTX 3060")];
    let list = build_encoder_candidates(&opts(&available, None, false, &settings, &gpus));
    assert!(list.iter().all(|c| c.nvenc_gpu != Some(5) && c.amf_device != Some(7)));
    assert!(list.iter().any(|c| c.encoder == "h264_nvenc" && c.nvenc_gpu == Some(0)));
    assert!(list.iter().any(|c| c.encoder == "h264_nvenc" && c.nvenc_gpu.is_none()));
    assert_eq!(
        summary(&list),
        vec![
            "h264_nvenc/ddagrab/Some(0)/None/",
            "h264_nvenc/ddagrab/None/None/",
            "h264_nvenc/gdigrab/Some(0)/None/",
            "h264_nvenc/gdigrab/None/None/",
            "libx264/ddagrab/None/None/",
            "libx264/gdigrab/None/None/",
        ]
    );
}

#[test]
fn stale_failed_keys_never_block_every_trial() {
    let available = vec![s("libx264")];
    let mut settings = HostSettings::default();
    settings.failed_probe_keys = vec![s("libx264/Ddagrab/default"), s("libx264/Gdigrab/default")];
    let gpus = [gpu("Intel(R) UHD Graphics 770")];
    let list = build_encoder_candidates(&opts(&available, None, false, &settings, &gpus));
    assert_eq!(summary(&list), vec!["libx264/ddagrab/None/None/", "libx264/gdigrab/None/None/"]);
    settings.failed_probe_keys.pop();
    let list = build_encoder_candidates(&opts(&available, None, false, &settings, &gpus));
    assert_eq!(summary(&list), vec!["libx264/gdigrab/None/None/"]);
}

#[test]
fn cpu_thread_counts() {
    assert_eq!(cpu_threads_from(None), 4);
    assert_eq!(cpu_threads_from(Some(16)), 16);
    assert_eq!(cpu_threads_from(Some(1)), 1);
    assert_eq!(cpu_threads_from(Some(0)), 1);
}

#[test]
fn success_after_failure_restores_failed_keys() {
    let mut settings = HostSettings::default();
    settings.failed_probe_keys = vec![s("h264_qsv/Ddagrab/default")];
    let before = settings.failed_probe_keys.clone();
    let c = candidate("h264_amf", Capture::Ddagrab, None, Some(1));
    record_probe_failure(&mut settings, &c);
    assert_eq!(settings.failed_probe_keys.len(), 2);
    record_probe_success(&mut settings, &c);
    assert_eq!(settings.failed_probe_keys, before);
}

use flexdisplay_host::settings::{
    canonical_bitrate_kbps, canonical_encoder, canonical_preset, canonical_resolution,
    clear_invalid_gpu_indices, migrate_loaded_settings, normalize_posted_settings, probe_cache_key, resolve_preset,
    EnvConfig, HostSettings, ProbeCache,
};

fn s(v: &str) -> String {
    v.to_string()
}

#[test]
fn canonical_encoder_normalises_known_names() {
    assert_eq!(canonical_encoder(Some(s("  H264_NVENC "))), Some(s("h264_nvenc")));
    assert_eq!(canonical_encoder(Some(s("libx264"))), Some(s("libx264")));
    assert_eq!(canonical_encoder(Some(s("h264_vaapi"))), None);
    assert_eq!(canonical_encoder(None), None);
}

#[test]
fn canonical_resolution_accepts_offered_sizes_only() {
    assert_eq!(canonical_resolution(Some(1280), Some(720)), (Some(1280), Some(720)));
    assert_eq!(canonical_resolution(Some(1920), Some(1080)), (Some(1920), Some(1080)));
    assert_eq!(canonical_resolution(Some(1280), Some(721)), (None, None));
    assert_eq!(canonical_resolution(Some(1280), None), (None, None));
}

#[test]
fn canonical_bitrate_accepts_offered_values_only() {
    assert_eq!(canonical_bitrate_kbps(Some(5000)), Some(5000));
    assert_eq!(canonical_bitrate_kbps(Some(50_000)), Some(50_000));
    assert_eq!(canonical_bitrate_kbps(Some(6000)), None);
    assert_eq!(canonical_bitrate_kbps(None), None);
}

#[test]
fn canonical_preset_normalises_known_names() {
    assert_eq!(canonical_preset(Some(s(" Full_HD "))), Some(s("full_hd")));
    assert_eq!(canonical_preset(Some(s("cpu_safe"))), Some(s("cpu_safe")));
    assert_eq!(canonical_preset(Some(s("ultra"))), None);
}

#[test]
fn presets_resolve_to_their_profiles() {
    assert_eq!(resolve_preset("ahorro"), Some((960, 544, 30, 5_000)));
    assert_eq!(resolve_preset("cpu_safe"), Some((960, 544, 30, 5_000)));
    assert_eq!(resolve_preset("equilibrado"), Some((1280, 720, 60, 10_000)));
    assert_eq!(resolve_preset("alta_720p"), Some((1280, 720, 60, 15_000)));
    assert_eq!(resolve_preset("fluido_900p"), Some((1600, 900, 60, 20_000)));
    assert_eq!(resolve_preset("full_hd"), Some((1920, 1080, 60, 25_000)));
    assert_eq!(resolve_preset("full_hd_max"), Some((1920, 1080, 60, 35_000)));
    assert_eq!(resolve_preset("EQUILIBRADO"), None);
}

#[test]
fn canonical_presets_resolve() {
    for name in [" Ahorro", "cpu_safe", "EQUILIBRADO ", "alta_720p", "fluido_900p", "Full_HD", "full_hd_max"] {
        let canonical = canonical_preset(Some(s(name))).expect("known preset");
        assert!(resolve_preset(&canonical).is_some());
    }
}

#[test]
fn probe_keys_name_the_gpu() {
    assert_eq!(probe_cache_key("h264_nvenc", "gdigrab", Some(0), Some(3)), "h264_nvenc/gdigrab/gpu0");
    assert_eq!(probe_cache_key("h264_amf", "ddagrab", None, Some(12)), "h264_amf/ddagrab/amf12");
    assert_eq!(probe_cache_key("libx264", "ddagrab", None, None), "libx264/ddagrab/default");
}

#[test]
fn loading_migrates_legacy_fields() {
    let mut settings = HostSettings::default();
    settings.preferred_encoder = Some(s("h264_nvenc"));
    settings.preferred_amf_device = Some(1);
    settings.encoder_probe_cache = Some(ProbeCache {
        encoder: s("h264_amf"),
        capture: s("GDIGRAB"),
        nvenc_gpu: None,
        amf_device: Some(0),
    });
    migrate_loaded_settings(&mut settings);
    assert_eq!(settings.preferred_nvenc_gpu, Some(1));
    assert_eq!(settings.encoder_probe_cache.as_ref().unwrap().capture, "ddagrab");
    let again = settings.clone();
    migrate_loaded_settings(&mut settings);
    assert_eq!(settings.preferred_nvenc_gpu, again.preferred_nvenc_gpu);
    assert_eq!(settings.encoder_probe_cache.unwrap().capture, "ddagrab");
}

#[test]
fn loading_keeps_software_gdi_cache() {
    let mut settings = HostSettings::default();
    settings.preferred_encoder = Some(s("libx264"));
    settings.preferred_amf_device = Some(2);
    settings.encoder_probe_cache = Some(ProbeCache {
        encoder: s("libx264"),
        capture: s("gdigrab"),
        nvenc_gpu: None,
        amf_device: None,
    });
    migrate_loaded_settings(&mut settings);
    assert_eq!(settings.preferred_nvenc_gpu, None);
    assert_eq!(settings.encoder_probe_cache.unwrap().capture, "gdigrab");
}

#[test]
fn posted_settings_are_normalised() {
    let mut existing = HostSettings::default();
    existing.failed_probe_keys = vec![s("h264_qsv/ddagrab/default")];
    existing.encoder_probe_cache = Some(ProbeCache {
        encoder: s("h264_qsv"),
        capture: s("ddagrab"),
        nvenc_gpu: None,
        amf_device: None,
    });
    let mut incoming = HostSettings::default();
    incoming.preferred_encoder = Some(s(" H264_AMF"));
    incoming.preferred_amf_device = Some(1);
    incoming.preferred_preset = Some(s("Full_HD"));
    incoming.preferred_width = Some(1280);
    incoming.preferred_height = Some(720);
    incoming.preferred_bitrate_kbps = Some(8000);
    incoming.failed_probe_keys = vec![s("ignored")];
    let out = normalize_posted_settings(incoming, &existing);
    assert_eq!(out.preferred_encoder, Some(s("h264_amf")));
    assert_eq!(out.preferred_amf_device, Some(1));
    assert_eq!(out.preferred_preset, Some(s("full_hd")));
    assert_eq!(out.preferred_width, None);
    assert_eq!(out.preferred_height, None);
    assert_eq!(out.preferred_bitrate_kbps, None);
    assert_eq!(out.failed_probe_keys, vec![s("h264_qsv/ddagrab/default")]);
    assert_eq!(out.encoder_probe_cache.as_ref().unwrap().encoder, "h264_qsv");
    let twice = normalize_posted_settings(out.clone(), &existing);
    assert_eq!(twice.preferred_encoder, out.preferred_encoder);
    assert_eq!(twice.preferred_preset, out.preferred_preset);
}

#[test]
fn posted_manual_size_without_preset_is_kept() {
    let existing = HostSettings::default();
    let mut incoming = HostSettings::default();
    incoming.preferred_width = Some(1600);
    incoming.preferred_height = Some(900);
    incoming.preferred_bitrate_kbps = Some(12_000);
    incoming.preferred_preset = Some(s("unknown"));
    let out = normalize_posted_settings(incoming, &existing);
    assert_eq!(out.preferred_preset, None);
    assert_eq!((out.preferred_width, out.preferred_height), (Some(1600), Some(900)));
    assert_eq!(out.preferred_bitrate_kbps, Some(12_000));
}

#[test]
fn env_config_reads_values() {
    let env = EnvConfig::from_values(
        None,
        Some(s("+8080")),
        Some(s("45")),
        Some(s("x")),
        Some(s("h264_qsv")),
        Some(s("gdigrab")),
        Some(s("1920")),
        None,
        Some(s(" Yes ")),
    );
    assert_eq!(env.listen_host, "0.0.0.0");
    assert_eq!(env.port, 8080);
    assert_eq!(env.fps, Some(45));
    assert_eq!(env.bitrate_kbps, None);
    assert_eq!(env.hw_encoder.as_deref(), Some("h264_qsv"));
    assert_eq!(env.capture.as_deref(), Some("gdigrab"));
    assert_eq!(env.capture_width, Some(1920));
    assert_eq!(env.capture_height, None);
    assert!(env.force_software_encoder);
}

#[test]
fn env_config_defaults() {
    let env = EnvConfig::from_values(Some(s("127.0.0.1")), Some(s("70000")), Some(s("-1")), None, None, None, None, None, Some(s("0")));
    assert_eq!(env.listen_host, "127.0.0.1");
    assert_eq!(env.port, 9001);
    assert_eq!(env.fps, None);
    assert!(!env.force_software_encoder);
    let env = EnvConfig::from_values(None, None, Some(s("4294967296")), Some(s("4294967295")), None, None, None, None, None);
    assert_eq!(env.port, 9001);
    assert_eq!(env.fps, None);
    assert_eq!(env.bitrate_kbps, Some(4294967295));
}

#[test]
fn invalid_gpu_indices_are_cleared() {
    let mut settings = HostSettings::default();
    settings.preferred_encoder = Some(s("h264_nvenc"));
    settings.preferred_nvenc_gpu = Some(5);
    settings.preferred_amf_device = Some(1);
    settings.encoder_probe_cache = Some(ProbeCache { encoder: s("h264_amf"), capture: s("ddagrab"), nvenc_gpu: None, amf_device: Some(2) });
    assert!(clear_invalid_gpu_indices(&mut settings, 2));
    assert_eq!(settings.preferred_nvenc_gpu, None);
    assert_eq!(settings.preferred_amf_device, Some(1));
    assert!(settings.encoder_probe_cache.is_none());
    assert_eq!(settings.preferred_encoder, Some(s("h264_nvenc")));
    assert!(!clear_invalid_gpu_indices(&mut settings, 2));
    settings.preferred_nvenc_gpu = Some(9);
    assert!(!clear_invalid_gpu_indices(&mut settings, 0));
    assert_eq!(settings.preferred_nvenc_gpu, Some(9));
}

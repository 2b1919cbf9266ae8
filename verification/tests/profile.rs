use flexdisplay_host::profile::{
    align_dim, apply_encoder_profile_caps, fit_inside, resolve_base_profile, BaseProfileRequest,
    StreamProfile, TransportKind,
};

fn empty_request(transport: TransportKind) -> BaseProfileRequest {
    BaseProfileRequest {
        preset_active: false,
        preset_w: None,
        preset_h: None,
        preset_fps: None,
        preset_bitrate: None,
        manual_w: None,
        manual_h: None,
        manual_bitrate: None,
        env_w: None,
        env_h: None,
        env_fps: None,
        env_bitrate: None,
        client_w: None,
        client_h: None,
        client_fps: None,
        client_bitrate: None,
        mirror_host_w: None,
        mirror_host_h: None,
        transport,
        adaptive: true,
    }
}

#[test]
fn adaptive_prefers_client_over_mirror() {
    let req = BaseProfileRequest {
        preset_active: false,
        preset_w: None,
        preset_h: None,
        preset_fps: None,
        preset_bitrate: None,
        manual_w: None,
        manual_h: None,
        manual_bitrate: None,
        env_w: None,
        env_h: None,
        env_fps: None,
        env_bitrate: None,
        client_w: Some(1920),
        client_h: Some(1200),
        client_fps: Some(60),
        client_bitrate: Some(8000),
        mirror_host_w: Some(2560),
        mirror_host_h: Some(1440),
        transport: TransportKind::Usb,
        adaptive: true,
    };
    let base = resolve_base_profile(&req);
    assert_eq!(base.w, 1920);
    assert_eq!(base.h, 1200);
    let eff = apply_encoder_profile_caps("h264_nvenc", TransportKind::Usb, base, None);
    assert_eq!(eff.w, 1920);
    assert_eq!(eff.h, 1200);
}

#[test]
fn libx264_full_hd_usb_caps_to_720p60() {
    let base = StreamProfile {
        w: 1920,
        h: 1088,
        fps: 60,
        bitrate_kbps: 25_000,
    };
    let eff = apply_encoder_profile_caps("libx264", TransportKind::Usb, base, Some("full_hd"));
    assert!(eff.w <= 1280);
    assert_eq!(eff.h, 720);
    assert_eq!(eff.fps, 60);
    assert!(eff.bitrate_kbps <= 10_000);
}

#[test]
fn libx264_equilibrado_usb_allows_60fps() {
    let base = StreamProfile {
        w: 1280,
        h: 720,
        fps: 60,
        bitrate_kbps: 10_000,
    };
    let eff = apply_encoder_profile_caps("libx264", TransportKind::Usb, base, Some("equilibrado"));
    assert_eq!(eff.w, 1280);
    assert_eq!(eff.h, 720);
    assert_eq!(eff.fps, 60);
}

#[test]
fn align_dim_rounds_to_nearest_sixteen() {
    assert_eq!(align_dim(1080, 240, 2160), 1088);
    assert_eq!(align_dim(1072, 240, 2160), 1072);
}

#[test]
fn wifi_caps_resolution() {
    let req = BaseProfileRequest {
        preset_active: false,
        preset_w: None,
        preset_h: None,
        preset_fps: None,
        preset_bitrate: None,
        manual_w: None,
        manual_h: None,
        manual_bitrate: None,
        env_w: None,
        env_h: None,
        env_fps: None,
        env_bitrate: None,
        client_w: Some(1920),
        client_h: Some(1200),
        client_fps: None,
        client_bitrate: None,
        mirror_host_w: None,
        mirror_host_h: None,
        transport: TransportKind::Wifi,
        adaptive: true,
    };
    let base = resolve_base_profile(&req);
    assert!(base.w <= 1280);
    assert!(base.h <= 720);
    assert_eq!(base.fps, 30);
}

#[test]
fn align_dim_clamps_into_range() {
    assert_eq!(align_dim(100, 320, 3840), 320);
    assert_eq!(align_dim(5000, 320, 3840), 3840);
    assert_eq!(align_dim(1087, 240, 2160), 1088);
    assert_eq!(align_dim(1079, 240, 2160), 1072);
    assert_eq!(align_dim(2160, 240, 2160), 2160);
}

#[test]
fn fit_inside_exact_values() {
    assert_eq!(fit_inside(1920, 1088, 1280, 720), (1264, 720));
    assert_eq!(fit_inside(1920, 1200, 1280, 720), (1152, 720));
    assert_eq!(fit_inside(1280, 720, 1920, 1200), (1280, 720));
    assert_eq!(fit_inside(0, 720, 1280, 720), (1280, 720));
    assert_eq!(fit_inside(2560, 1440, 1920, 1200), (1920, 1088));
}

#[test]
fn fit_inside_stays_inside_box() {
    for &(w, h) in &[(3840u32, 2160u32), (1366, 768), (800, 1280), (1, 1), (4000, 10)] {
        for &(bw, bh) in &[(1280u32, 720u32), (1920, 1200), (960, 544), (1600, 900)] {
            let (fw, fh) = fit_inside(w, h, bw, bh);
            assert!(fw <= bw && fh <= bh, "{w}x{h} in {bw}x{bh} gave {fw}x{fh}");
            assert_eq!(fw % 16, 0);
            assert_eq!(fh % 16, 0);
        }
    }
}

#[test]
fn preset_fixes_the_profile() {
    let mut req = empty_request(TransportKind::Wifi);
    req.preset_active = true;
    req.preset_w = Some(1920);
    req.preset_h = Some(1080);
    req.preset_fps = Some(60);
    req.preset_bitrate = Some(25_000);
    req.client_w = Some(800);
    req.client_h = Some(600);
    let base = resolve_base_profile(&req);
    assert_eq!(
        base,
        StreamProfile {
            w: 1920,
            h: 1088,
            fps: 60,
            bitrate_kbps: 25_000
        }
    );
}

#[test]
fn manual_profile_prefers_manual_then_env_then_mirror() {
    let mut req = empty_request(TransportKind::Usb);
    req.adaptive = false;
    req.env_w = Some(1600);
    req.env_h = Some(900);
    req.mirror_host_w = Some(2560);
    req.mirror_host_h = Some(1440);
    req.client_w = Some(1920);
    req.client_h = Some(1200);
    req.env_fps = Some(120);
    req.manual_bitrate = Some(500);
    let base = resolve_base_profile(&req);
    assert_eq!(base.w, 1600);
    assert_eq!(base.h, 896);
    assert_eq!(base.fps, 60);
    assert_eq!(base.bitrate_kbps, 1000);
}

#[test]
fn defaults_follow_transport() {
    let base = resolve_base_profile(&empty_request(TransportKind::Usb));
    assert_eq!(base, StreamProfile { w: 960, h: 544, fps: 60, bitrate_kbps: 10_000 });
    let base = resolve_base_profile(&empty_request(TransportKind::Unknown));
    assert_eq!(base, StreamProfile { w: 960, h: 544, fps: 30, bitrate_kbps: 5_000 });
}

#[test]
fn small_client_sizes_are_ignored() {
    let mut req = empty_request(TransportKind::Usb);
    req.client_w = Some(200);
    req.client_h = Some(1000);
    let base = resolve_base_profile(&req);
    assert_eq!((base.w, base.h), (960, 1008));
}

#[test]
fn hardware_caps_follow_transport() {
    let base = StreamProfile { w: 1920, h: 1200, fps: 60, bitrate_kbps: 8000 };
    let eff = apply_encoder_profile_caps("h264_nvenc", TransportKind::Wifi, base, None);
    assert_eq!(eff, StreamProfile { w: 1152, h: 720, fps: 30, bitrate_kbps: 8000 });
    let eff = apply_encoder_profile_caps("h264_amf", TransportKind::Usb, base, None);
    assert_eq!(eff, StreamProfile { w: 1920, h: 1200, fps: 60, bitrate_kbps: 8000 });
    let low = StreamProfile { w: 1280, h: 720, fps: 30, bitrate_kbps: 2000 };
    let eff = apply_encoder_profile_caps("h264_qsv", TransportKind::Usb, low, None);
    assert_eq!(eff.bitrate_kbps, 5000);
    let eff = apply_encoder_profile_caps("h264_amf", TransportKind::Usb, StreamProfile { bitrate_kbps: 40_000, ..low }, None);
    assert_eq!(eff.bitrate_kbps, 18_000);
}

#[test]
fn unknown_encoder_keeps_profile() {
    let base = StreamProfile { w: 3840, h: 2160, fps: 60, bitrate_kbps: 50_000 };
    assert_eq!(apply_encoder_profile_caps("hevc_x", TransportKind::Wifi, base, None), base);
}

#[test]
fn libx264_presets_cap_software_encoding() {
    let base = StreamProfile { w: 1920, h: 1080, fps: 60, bitrate_kbps: 25_000 };
    let eff = apply_encoder_profile_caps("libx264", TransportKind::Usb, base, Some("cpu_safe"));
    assert_eq!(eff, StreamProfile { w: 960, h: 544, fps: 30, bitrate_kbps: 6_000 });
    let eff = apply_encoder_profile_caps("libx264", TransportKind::Wifi, base, Some("fluido_900p"));
    assert_eq!(eff, StreamProfile { w: 1600, h: 896, fps: 30, bitrate_kbps: 12_000 });
    let eff = apply_encoder_profile_caps("libx264", TransportKind::Usb, base, None);
    assert_eq!(eff, StreamProfile { w: 1280, h: 720, fps: 30, bitrate_kbps: 8_000 });
    let base = StreamProfile { w: 1920, h: 1080, fps: 60, bitrate_kbps: 8_000 };
    let eff = apply_encoder_profile_caps("libx264", TransportKind::Usb, base, None);
    assert_eq!(eff, StreamProfile { w: 1280, h: 720, fps: 30, bitrate_kbps: 8_000 });
    let base = StreamProfile { w: 1280, h: 720, fps: 30, bitrate_kbps: 3_000 };
    let eff = apply_encoder_profile_caps("libx264", TransportKind::Wifi, base, None);
    assert_eq!(eff.bitrate_kbps, 4_000);
}

#[test]
fn transport_parsing() {
    assert_eq!(TransportKind::parse(Some(" USB ")), TransportKind::Usb);
    assert_eq!(TransportKind::parse(Some("Wi-Fi")), TransportKind::Wifi);
    assert_eq!(TransportKind::parse(Some("lan")), TransportKind::Wifi);
    assert_eq!(TransportKind::parse(Some("bluetooth")), TransportKind::Unknown);
    assert_eq!(TransportKind::parse(None), TransportKind::Unknown);
    assert_eq!(TransportKind::Usb.default_fps(), 60);
    assert_eq!(TransportKind::Wifi.default_bitrate_kbps(), 5_000);
}

#[test]
fn caps_applied_twice_change_nothing() {
    let bases = [
        StreamProfile { w: 1920, h: 1080, fps: 60, bitrate_kbps: 25_000 },
        StreamProfile { w: 2560, h: 1600, fps: 120, bitrate_kbps: 1_000 },
        StreamProfile { w: 0, h: 720, fps: 30, bitrate_kbps: 8_000 },
    ];
    for enc in ["libx264", "h264_nvenc", "h264_qsv", "h264_amf", "other"] {
        for t in [TransportKind::Usb, TransportKind::Wifi] {
            for preset in [None, Some("cpu_safe"), Some("fluido_900p"), Some("full_hd")] {
                for b in bases {
                    let once = apply_encoder_profile_caps(enc, t, b, preset);
                    assert_eq!(apply_encoder_profile_caps(enc, t, once, preset), once);
                }
            }
        }
    }
}

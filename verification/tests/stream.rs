use flexdisplay_host::capture::Capture;
use flexdisplay_host::encoder::EncoderCandidate;
use flexdisplay_host::ffmpeg::{DisplayRect, StreamExit};
use flexdisplay_host::profile::{StreamProfile, TransportKind};
use flexdisplay_host::settings::{EnvConfig, HostSettings};
use flexdisplay_host::stream::{
    adaptive_requested, cfg_message, default_display_for_mode, default_display_index, display_index, fit_of,
    learn_from_success, mirror_host_dims, no_encoder_frame, preferred_encoder, profile_label,
    profile_request, session_step, stream_mode_of, transport_label, trial_decision, SessionStep,
    StreamQuery, TrialDecision,
};

fn s(v: &str) -> String {
    v.to_string()
}

fn env() -> EnvConfig {
    EnvConfig::from_values(None, None, Some(s("50")), None, None, None, Some(s("1600")), Some(s("900")), None)
}

#[test]
fn stream_mode_and_display() {
    assert_eq!(stream_mode_of(&Some(s("Extended"))), "extended");
    assert_eq!(stream_mode_of(&None), "mirror");
    assert_eq!(default_display_index("EXTENDED", Some(2)), 2);
    assert_eq!(default_display_index("extended", None), 0);
    assert_eq!(default_display_index("mirror", Some(2)), 0);
    assert_eq!(display_index(Some(12), 0), 9);
    assert_eq!(display_index(None, 3), 3);
}

#[test]
fn adaptive_profile_request() {
    assert!(adaptive_requested(false, &None));
    assert!(adaptive_requested(false, &Some(s("auto"))));
    assert!(!adaptive_requested(false, &Some(s("MANUAL"))));
    assert!(!adaptive_requested(true, &None));
}

#[test]
fn mirror_dims_only_in_mirror_mode() {
    let t = DisplayRect { left: 0, top: 0, width: 2560, height: 0 };
    assert_eq!(mirror_host_dims("Mirror", Some(t)), (Some(2560), Some(1)));
    assert_eq!(mirror_host_dims("extended", Some(t)), (None, None));
    assert_eq!(mirror_host_dims("mirror", None), (None, None));
}

#[test]
fn profile_request_gathers_sources() {
    let mut q = StreamQuery::default();
    q.w = Some(1920);
    q.h = Some(1200);
    q.transport = Some(s("usb"));
    q.profile = Some(s("manual"));
    let mut settings = HostSettings::default();
    settings.preferred_width = Some(1280);
    let req = profile_request(&q, &settings, &env(), (Some(2560), Some(1440)));
    assert!(!req.preset_active);
    assert!(!req.adaptive);
    assert_eq!(req.transport, TransportKind::Usb);
    assert_eq!((req.manual_w, req.env_w, req.env_h, req.env_fps), (Some(1280), Some(1600), Some(900), Some(50)));
    assert_eq!((req.client_w, req.client_h, req.mirror_host_w), (Some(1920), Some(1200), Some(2560)));

    settings.preferred_preset = Some(s("alta_720p"));
    let req = profile_request(&q, &settings, &env(), (None, None));
    assert!(req.preset_active);
    assert_eq!((req.preset_w, req.preset_h, req.preset_fps, req.preset_bitrate), (Some(1280), Some(720), Some(60), Some(15_000)));
    settings.preferred_preset = Some(s("legacy"));
    let req = profile_request(&q, &settings, &env(), (None, None));
    assert!(req.preset_active);
    assert_eq!(req.preset_w, None);
}

#[test]
fn labels() {
    assert_eq!(profile_label(&Some(s("full_hd")), true), "full_hd");
    assert_eq!(profile_label(&None, true), "auto");
    assert_eq!(profile_label(&None, false), "manual");
    assert_eq!(transport_label(TransportKind::Unknown), "unknown");
    assert_eq!(fit_of(&None, "mirror"), "contain");
    assert_eq!(fit_of(&None, "extended"), "cover");
    assert_eq!(fit_of(&Some(s("Cover")), "mirror"), "cover");
}

#[test]
fn transport_labels_read_back() {
    for t in [TransportKind::Usb, TransportKind::Wifi, TransportKind::Unknown] {
        assert_eq!(TransportKind::parse(Some(transport_label(t))), t);
    }
}

#[test]
fn preferred_encoder_order() {
    assert_eq!(preferred_encoder(&Some(s("h264_amf")), &Some(s("libx264")), &None), Some(s("h264_amf")));
    assert_eq!(preferred_encoder(&None, &None, &Some(s(" H264_QSV "))), Some(s("h264_qsv")));
    assert_eq!(preferred_encoder(&None, &Some(s("   ")), &Some(s("h264_qsv"))), None);
    assert_eq!(preferred_encoder(&None, &Some(s("vp8")), &None), None);
    assert_eq!(preferred_encoder(&None, &None, &None), None);
}

#[test]
fn cfg_frame() {
    let p = StreamProfile { w: 1280, h: 720, fps: 60, bitrate_kbps: 8000 };
    assert_eq!(
        cfg_message("h264_nvenc", Capture::Ddagrab, p, "auto", "usb"),
        "CFG:encoder=h264_nvenc;capture=ddagrab;w=1280;h=720;fps=60;bitrate_kbps=8000;profile=auto;transport=usb"
    );
}

#[test]
fn trial_outcomes() {
    assert_eq!(trial_decision(&Ok(StreamExit::Streamed)), TrialDecision::Won);
    assert_eq!(trial_decision(&Ok(StreamExit::RestartRequested)), TrialDecision::Restarted);
    assert_eq!(trial_decision(&Ok(StreamExit::Unavailable)), TrialDecision::FailedTryNext);
    assert_eq!(trial_decision(&Ok(StreamExit::SocketClosed)), TrialDecision::ClientGone);
    assert_eq!(trial_decision(&Err(s("Program Not Found"))), TrialDecision::FfmpegMissing);
    assert_eq!(trial_decision(&Err(s("broken pipe"))), TrialDecision::ErrorTryNext);
}

#[test]
fn learning_from_a_successful_trial() {
    let c = EncoderCandidate { encoder: s("h264_nvenc"), capture: Capture::Gdigrab, pre_input_args: vec![], nvenc_gpu: Some(1), amf_device: None };
    let mut settings = HostSettings::default();
    settings.failed_probe_keys = vec![s("h264_nvenc/Gdigrab/gpu1"), s("other")];
    learn_from_success(&mut settings, &c, false);
    assert_eq!(settings.preferred_encoder, Some(s("h264_nvenc")));
    assert_eq!(settings.preferred_nvenc_gpu, Some(1));
    assert_eq!(settings.failed_probe_keys, vec![s("other")]);
    assert_eq!(settings.encoder_probe_cache.as_ref().unwrap().capture, "gdigrab");

    let mut locked = HostSettings::default();
    learn_from_success(&mut locked, &c, true);
    assert_eq!(locked.preferred_encoder, None);
    assert!(locked.encoder_probe_cache.is_some());

    let mut kept = HostSettings::default();
    kept.preferred_encoder = Some(s("libx264"));
    learn_from_success(&mut kept, &c, false);
    assert_eq!(kept.preferred_encoder, Some(s("libx264")));
    assert_eq!(kept.preferred_nvenc_gpu, None);
}

#[test]
fn no_encoder_error_frame() {
    assert_eq!(
        no_encoder_frame(&None, &vec![]),
        "{\"type\":\"error\",\"message\":\"No H.264 encoder available (requested=auto, attempted=none)\"}"
    );
    let cands = vec![
        EncoderCandidate { encoder: s("h264_nvenc"), capture: Capture::Ddagrab, pre_input_args: vec![], nvenc_gpu: None, amf_device: None },
        EncoderCandidate { encoder: s("libx264"), capture: Capture::Gdigrab, pre_input_args: vec![], nvenc_gpu: None, amf_device: None },
    ];
    assert_eq!(
        no_encoder_frame(&Some(s("my\"enc")), &cands),
        "{\"type\":\"error\",\"message\":\"No H.264 encoder available (requested=my\\\"enc, attempted=h264_nvenc/ddagrab, libx264/gdigrab)\"}"
    );
}

#[test]
fn default_display_per_mode() {
    let primary = [false, true, false];
    assert_eq!(default_display_for_mode("mirror", &primary), Some(1));
    assert_eq!(default_display_for_mode("Extended", &primary), Some(0));
    assert_eq!(default_display_for_mode("extended", &[true]), None);
    assert_eq!(default_display_for_mode("mirror", &[]), None);
}

#[test]
fn what_follows_a_round_of_trials() {
    assert_eq!(session_step(false, true, true), SessionStep::Disconnect);
    assert_eq!(session_step(true, true, false), SessionStep::Reset);
    assert_eq!(session_step(true, false, false), SessionStep::ReportNoEncoder);
    assert_eq!(session_step(true, false, true), SessionStep::NextRound);
}

use flexdisplay_host::capture::Capture;
use flexdisplay_host::ffmpeg::{
    build_ffmpeg_args, effective_bitrate_kbps, ffmpeg_line_is_problem, ffmpeg_log_file_name,
    gop_frames, is_winget_ffmpeg_package, record_amf_success, ticker_message, vbv_bufsize_kbps,
    DisplayRect, FfmpegConfig, ReadOutcome, RelayState, RelayStep, SendOutcome, StreamExit,
};
use flexdisplay_host::settings::HostSettings;

fn s(v: &str) -> String {
    v.to_string()
}

fn config(encoder: &str, capture: Capture) -> FfmpegConfig {
    FfmpegConfig {
        out_w: 1280,
        out_h: 720,
        fps: 60,
        bitrate_kbps: 10_000,
        mode: s("mirror"),
        fit: s(""),
        display_idx: 1,
        encoder: s(encoder),
        capture,
        pre_input_args: vec![],
        nvenc_gpu: Some(1),
    }
}

#[test]
fn rate_control_numbers() {
    assert_eq!(effective_bitrate_kbps("libx264", 15_000), 12_000);
    assert_eq!(effective_bitrate_kbps("h264_nvenc", 9_000), 8_000);
    assert_eq!(effective_bitrate_kbps("h264_nvenc", 6_000), 6_000);
    assert_eq!(effective_bitrate_kbps("h264_amf", 3_000), 5_000);
    assert_eq!(effective_bitrate_kbps("h264_amf", 30_000), 18_000);
    assert_eq!(effective_bitrate_kbps("h264_qsv", 9_000), 9_000);
    assert_eq!(vbv_bufsize_kbps("h264_amf", 12_000), 1_000);
    assert_eq!(vbv_bufsize_kbps("h264_nvenc", 8_000), 666);
    assert_eq!(vbv_bufsize_kbps("h264_qsv", 9_000), 750);
    assert_eq!(vbv_bufsize_kbps("libx264", 12_000), 3_000);
    assert_eq!(gop_frames("h264_amf", 60), 60);
    assert_eq!(gop_frames("h264_amf", 20), 30);
    assert_eq!(gop_frames("libx264", 60), 30);
    assert_eq!(gop_frames("h264_nvenc", 60), 60);
    assert_eq!(gop_frames("h264_nvenc", 144), 120);
    assert_eq!(gop_frames("h264_qsv", 60), 30);
    assert_eq!(gop_frames("h264_qsv", 20), 15);
}

#[test]
fn nvenc_ddagrab_command_line() {
    let args = build_ffmpeg_args(&config("h264_nvenc", Capture::Ddagrab), None, 8);
    let expected: Vec<&str> = vec![
        "-f", "lavfi", "-i", "ddagrab=1:framerate=60,hwdownload,format=bgra",
        "-fflags", "+nobuffer", "-flags", "+low_delay", "-avioflags", "direct", "-fps_mode", "cfr",
        "-vf", "scale=1280:720:force_original_aspect_ratio=decrease,pad=1280:720:(ow-iw)/2:(oh-ih)/2:black,format=yuv420p",
        "-an", "-r", "60", "-c:v", "h264_nvenc",
        "-preset", "p1", "-tune", "ll", "-rc", "cbr", "-bf", "0", "-zerolatency", "1", "-profile:v", "main", "-aud", "1", "-level", "5.1",
        "-no-scenecut", "1", "-forced-idr", "0", "-strict_gop", "1",
        "-gpu", "1",
        "-g", "60", "-b:v", "8000k", "-maxrate", "8000k", "-bufsize", "666k", "-bsf:v", "dump_extra", "-f", "h264", "-",
    ];
    assert_eq!(args, expected);
}

#[test]
fn gdigrab_command_line_places_the_display() {
    let mut c = config("libx264", Capture::Gdigrab);
    c.mode = s("extended");
    c.fit = s("cover");
    c.pre_input_args = vec![s("-hide_banner")];
    let target = DisplayRect { left: -1920, top: 0, width: 1920, height: 1080 };
    let args = build_ffmpeg_args(&c, Some(target), 2);
    let head: Vec<&str> = vec![
        "-hide_banner", "-probesize", "32", "-analyzeduration", "0", "-f", "gdigrab", "-framerate", "60",
        "-offset_x", "-1920", "-offset_y", "0", "-video_size", "1920x1080", "-i", "desktop",
    ];
    assert_eq!(&args[..head.len()], &head[..]);
    assert!(args.contains(&s("scale=1280:720:force_original_aspect_ratio=increase,crop=1280:720:(iw-1280)/2:(ih-720)/2,format=yuv420p")));
    assert!(!args.contains(&s("-gpu")));
    let tail: Vec<&str> = vec!["-g", "30", "-b:v", "10000k", "-maxrate", "10000k", "-bufsize", "2500k", "-bsf:v", "dump_extra", "-f", "h264", "-"];
    assert_eq!(&args[args.len() - tail.len()..], &tail[..]);
    let without_target = build_ffmpeg_args(&c, None, 2);
    assert_eq!(without_target.len(), args.len() - 6);
}

#[test]
fn relay_decisions() {
    let mut relay = RelayState::new();
    assert!(relay.probing());
    assert_eq!(relay.on_read(ReadOutcome::Bytes(4096)), RelayStep::Forward { first: true });
    assert!(!relay.probing());
    assert_eq!(relay.on_read(ReadOutcome::Bytes(10)), RelayStep::Forward { first: false });
    assert_eq!(relay.on_read(ReadOutcome::Bytes(0)), RelayStep::EndOfOutput);
    assert_eq!(relay.on_read(ReadOutcome::Eof), RelayStep::EndOfOutput);
    assert_eq!(relay.on_read(ReadOutcome::TimedOut), RelayStep::GiveUp);
    assert_eq!(relay.on_read(ReadOutcome::Failed), RelayStep::Error);
    assert_eq!(relay.on_send(SendOutcome::Sent), None);
    assert_eq!(relay.on_send(SendOutcome::Stalled), Some(StreamExit::SocketClosed));
    assert_eq!(relay.exit(true, false), StreamExit::Streamed);
    assert_eq!(relay.exit(false, true), StreamExit::SocketClosed);
    assert_eq!(relay.exit(true, true), StreamExit::RestartRequested);
    assert_eq!(RelayState::new().exit(true, false), StreamExit::Unavailable);
}

#[test]
fn amf_success_updates_preferred_device() {
    let mut settings = HostSettings::default();
    let pre = vec![s("-init_hw_device"), s("d3d11va=amf_dx:1")];
    assert!(record_amf_success(&mut settings, &pre));
    assert_eq!(settings.preferred_amf_device, Some(1));
    assert!(!record_amf_success(&mut settings, &pre));
    assert!(record_amf_success(&mut settings, &[]));
    assert_eq!(settings.preferred_amf_device, None);
}

#[test]
fn stderr_lines_are_classified() {
    assert!(ffmpeg_line_is_problem("[h264_nvenc] Error opening encoder"));
    assert!(ffmpeg_line_is_problem("Could Not find codec"));
    assert!(ffmpeg_line_is_problem("No such device"));
    assert!(!ffmpeg_line_is_problem("frame=  120 fps= 60 q=23.0"));
}

#[test]
fn log_file_names_carry_utc_timestamps() {
    assert_eq!(ffmpeg_log_file_name("h264_nvenc", 0), "ffmpeg-h264_nvenc-19700101-000000.txt");
    assert_eq!(ffmpeg_log_file_name("a:b/c", 1_700_000_000), "ffmpeg-a_b_c-20231114-221320.txt");
    assert_eq!(ffmpeg_log_file_name("libx264", 951_782_400), "ffmpeg-libx264-20000229-000000.txt");
    assert_eq!(ffmpeg_log_file_name("libx264", 951_868_800), "ffmpeg-libx264-20000301-000000.txt");
    assert_eq!(ffmpeg_log_file_name("x", 1_735_689_599), "ffmpeg-x-20241231-235959.txt");
}

#[test]
fn small_ffmpeg_helpers() {
    assert_eq!(ticker_message(1_700_000_000_123_456), "T:1700000000123456");
    assert_eq!(ticker_message(0), "T:0");
    assert!(is_winget_ffmpeg_package("Gyan.FFmpeg_Microsoft.Winget.Source_8wekyb3d8bbwe"));
    assert!(!is_winget_ffmpeg_package("BtbN.FFmpeg"));
}

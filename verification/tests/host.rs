use flexdisplay_host::adaptive::AdaptiveStreamState;
use flexdisplay_host::gui::host_gui_html;
use flexdisplay_host::host::{
    adb_lists_device, answer_ping, gui_url, host_mode, lan_ip_from_output, logo_png_bytes,
    parse_ping, ping_report, PingReport,
};

#[test]
fn status_mode_from_listen_address() {
    assert_eq!(host_mode("127.0.0.1"), "usb");
    assert_eq!(host_mode("localhost"), "usb");
    assert_eq!(host_mode("0.0.0.0"), "wifi");
    assert_eq!(host_mode("192.168.1.10"), "wifi");
}

#[test]
fn lan_ip_from_command_output() {
    assert_eq!(lan_ip_from_output(" 192.168.1.5\r\n"), Some("192.168.1.5".to_string()));
    assert_eq!(lan_ip_from_output("  \n"), None);
    assert_eq!(lan_ip_from_output("10.0.0.2 10.0.0.3"), None);
}

#[test]
fn adb_devices_output() {
    assert!(adb_lists_device("List of devices attached\nR58M123ABC\tdevice\n\n"));
    assert!(adb_lists_device("List of devices attached\r\nemulator-5554 device\r\n"));
    assert!(!adb_lists_device("List of devices attached\n\n"));
    assert!(!adb_lists_device("List of devices attached\nR58M123ABC\tunauthorized\n"));
    assert!(!adb_lists_device("header\tdevice\n"));
    assert!(!adb_lists_device(""));
    assert!(adb_lists_device("List of devices attached\nA\toffline\nB\tdevice"));
}

#[test]
fn control_panel_url() {
    assert_eq!(gui_url([0, 0, 0, 0], 9001), "http://127.0.0.1:9001");
    assert_eq!(gui_url([192, 168, 1, 20], 8080), "http://192.168.1.20:8080");
    assert_eq!(gui_url([127, 0, 0, 1], 65535), "http://127.0.0.1:65535");
}

#[test]
fn brand_assets() {
    let logo = logo_png_bytes();
    assert_eq!(logo.len(), 66);
    assert_eq!(&logo[..8], &[0x89, 0x50, 0x4E, 0x47, 0x0D, 0x0A, 0x1A, 0x0A]);
    assert_eq!(&logo[logo.len() - 4..], &[0xAE, 0x42, 0x60, 0x82]);
    let html = host_gui_html();
    assert!(html.starts_with("<!doctype html>"));
    assert!(html.contains("<title>FlexDisplay</title>"));
    assert!(html.contains("/api/settings"));
}

#[test]
fn ping_fields() {
    assert_eq!(ping_report(Some("ping".to_string()), Some(-5), Some(70), None), Some(PingReport { ts_ms: -5, glass_ms: 70, dec_ms: 0 }));
    assert_eq!(ping_report(Some("pong".to_string()), Some(1), Some(1), Some(1)), None);
    assert_eq!(ping_report(None, None, None, None), None);
    assert_eq!(ping_report(Some("ping".to_string()), None, Some(4_294_967_297), None).unwrap().glass_ms, 1);
}

#[test]
fn ping_messages_are_parsed_from_json() {
    assert_eq!(
        parse_ping(r#"{"type":"ping","ts_ms":42,"glass_ms":60,"dec_ms":7}"#),
        Some(PingReport { ts_ms: 42, glass_ms: 60, dec_ms: 7 })
    );
    assert_eq!(parse_ping(r#"{"type":"ping"}"#), Some(PingReport { ts_ms: 0, glass_ms: 0, dec_ms: 0 }));
    assert_eq!(parse_ping(r#"{"type":"ping","glass_ms":-3,"ts_ms":"x"}"#), Some(PingReport { ts_ms: 0, glass_ms: 0, dec_ms: 0 }));
    assert_eq!(parse_ping(r#"{"type":"down","x":0.5,"y":0.5}"#), None);
    assert_eq!(parse_ping("not json"), None);
    assert_eq!(parse_ping(r#"["ping"]"#), None);
}

#[test]
fn ping_is_answered_with_pong() {
    let mut adaptive = AdaptiveStreamState::default();
    adaptive.set_motion_score_milli(300);
    let pong = answer_ping(PingReport { ts_ms: 42, glass_ms: 80, dec_ms: 9 }, &mut adaptive, 1_000, 900);
    assert_eq!(pong, r#"{"type":"pong","ts_ms":42,"host_us":1000,"stream_send_us":900,"tuning":"motion"}"#);
    assert_eq!(adaptive.client_glass_ms(), 80);
    adaptive.set_motion_score_milli(100);
    let pong = answer_ping(PingReport { ts_ms: -1, glass_ms: 0, dec_ms: 0 }, &mut adaptive, 5, 0);
    assert_eq!(pong, r#"{"type":"pong","ts_ms":-1,"host_us":5,"stream_send_us":0,"tuning":"interactive"}"#);
    assert_eq!(adaptive.client_glass_ms(), 80);
}

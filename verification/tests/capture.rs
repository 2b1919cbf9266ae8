use flexdisplay_host::capture::{capture_order, Capture};

#[test]
fn mirror_hw_prefers_ddagrab() {
    let order = capture_order("mirror", None, Some("h264_nvenc"));
    assert_eq!(order[0], Capture::Ddagrab);
    assert_eq!(order[1], Capture::Gdigrab);
}

#[test]
fn env_override_wins() {
    let order = capture_order("mirror", Some("gdigrab"), Some("h264_nvenc"));
    assert_eq!(order[0], Capture::Gdigrab);
}

#[test]
fn env_override_keeps_the_other_backend_second() {
    assert_eq!(capture_order("extended", Some(" GDIGRAB "), None), [Capture::Gdigrab, Capture::Ddagrab]);
    assert_eq!(capture_order("mirror", Some("ddagrab"), Some("libx264")), [Capture::Ddagrab, Capture::Gdigrab]);
}

#[test]
fn unknown_override_falls_back_to_dxgi_first() {
    assert_eq!(capture_order("mirror", Some("dshow"), Some("libx264")), [Capture::Ddagrab, Capture::Gdigrab]);
    assert_eq!(capture_order("extended", None, None), [Capture::Ddagrab, Capture::Gdigrab]);
}

#[test]
fn capture_names_round_trip() {
    assert_eq!(Capture::from_str_loose("DdaGrab"), Some(Capture::Ddagrab));
    assert_eq!(Capture::from_str_loose("\tgdigrab\n"), Some(Capture::Gdigrab));
    assert_eq!(Capture::from_str_loose("gdi grab"), None);
    assert_eq!(Capture::from_str_loose(""), None);
    assert_eq!(Capture::Ddagrab.as_str(), "ddagrab");
    assert_eq!(Capture::Gdigrab.to_string(), "gdigrab");
    for c in [Capture::Ddagrab, Capture::Gdigrab] {
        assert_eq!(Capture::from_str_loose(c.as_str()), Some(c));
    }
}

use youtuibe::display::{
    detect, drm_display, hyprland_display, parse_geometry, parse_xrandr, DrmConnector, HyprMonitor,
};

#[test]
fn parses_primary_xrandr_monitor() {
    let text = "DP-1 connected 2560x1440+1920+0\neDP-1 connected primary 1920x1080+0+0";
    let display = parse_xrandr(text).unwrap();
    assert_eq!(display.name, "eDP-1");
    assert_eq!((display.width, display.height), (1920, 1080));
}

#[test]
fn parses_geometry_without_accepting_mode_rates() {
    assert_eq!(parse_geometry("3440x1440+0+0"), Some((3440, 1440)));
    assert_eq!(parse_geometry("143.88*+"), None);
}

#[test]
fn xrandr_prefers_the_largest_when_none_is_primary() {
    let text = "Screen 0: minimum 8 x 8\nHDMI-1 disconnected\nDP-1 connected 2560x1440+1920+0 (normal)\r\nDP-2 connected 1920x1080+0+0\n";
    let display = parse_xrandr(text).unwrap();
    assert_eq!(display.name, "DP-1");
    assert_eq!(display.source, "xrandr");
    assert!(parse_xrandr("DP-1 connected (normal left)").is_none());
}

fn monitor(name: &str, width: i64, height: i64, transform: i64, focused: bool) -> HyprMonitor {
    HyprMonitor { name: name.into(), width, height, transform, focused, disabled: false }
}

#[test]
fn hyprland_prefers_focused_and_swaps_rotated_sizes() {
    let monitors = vec![
        monitor("DP-1", 3840, 2160, 0, false),
        monitor("DP-2", 1920, 1080, 1, true),
    ];
    let d = hyprland_display(&monitors).unwrap();
    assert_eq!(d.name, "DP-2");
    assert_eq!((d.width, d.height), (1080, 1920));
    assert_eq!(d.source, "Hyprland");
    let mut off = monitor("X", 5000, 5000, 0, true);
    off.disabled = true;
    assert!(hyprland_display(&vec![off]).is_none());
}

#[test]
fn drm_takes_the_largest_connected_mode() {
    let connectors = vec![
        DrmConnector { name: "card0-eDP-1".into(), status: Some("connected\n".into()), modes: Some("1920x1080\n1280x720\n".into()) },
        DrmConnector { name: "card0-DP-1".into(), status: Some("disconnected\n".into()), modes: Some("3840x2160\n".into()) },
        DrmConnector { name: "card0-DP-2".into(), status: None, modes: None },
    ];
    let d = drm_display(&connectors).unwrap();
    assert_eq!(d.name, "card0-eDP-1");
    assert_eq!((d.width, d.height), (1920, 1080));
}

#[test]
fn detection_falls_back_in_order() {
    let text = "eDP-1 connected primary 1920x1080+0+0";
    let empty: Vec<HyprMonitor> = Vec::new();
    let d = detect(Some(&empty), Some(text), None).unwrap();
    assert_eq!(d.source, "xrandr");
    let monitors = vec![monitor("HDMI-A-1", 2560, 1440, 0, true)];
    assert_eq!(detect(Some(&monitors), Some(text), None).unwrap().source, "Hyprland");
    assert!(detect(None, None, None).is_none());
}

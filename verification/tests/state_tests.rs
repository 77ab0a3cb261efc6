use openlogi::lighting::{
    brightness_resync, parse_hex, swatch_selected, toggled, with_brightness, with_color, Lighting,
    PALETTE,
};
use openlogi::pairing::{
    capture_wait_step, CaptureWait, DiscoveredDevice, PairingEvent, PairingState, PairingUpdate,
    CAPTURE_IDLE_POLLS, CAPTURE_IDLE_POLL_MS,
};
use openlogi::picker::group_by_category;
use openlogi::tray::{
    install, refresh_labels, request_refresh, set_device_lines, set_visible, uninstall,
    ActivationPolicy, Tray, TrayEvent, MAX_DEVICE_ROWS,
};
use openlogi::watcher::TrustWatch;

#[test]
fn parse_hex_reads_palette_and_falls_back_to_white() {
    assert_eq!(parse_hex("ff3b30"), 0x00ff_3b30);
    assert_eq!(parse_hex("FFCC00"), 0x00ff_cc00);
    assert_eq!(parse_hex("+007aff"), 0x0000_7aff);
    assert_eq!(parse_hex("zz0000"), 0x00ff_ffff);
    assert_eq!(parse_hex(""), 0x00ff_ffff);
    assert_eq!(parse_hex("+"), 0x00ff_ffff);
    assert_eq!(parse_hex("-1"), 0x00ff_ffff);
    assert_eq!(parse_hex("ffffffff"), 0xffff_ffff);
    assert_eq!(parse_hex("100000000"), 0x00ff_ffff);
    for hex in PALETTE {
        assert_eq!(parse_hex(hex), u32::from_str_radix(hex, 16).unwrap());
    }
}

#[test]
fn lighting_panel_changes() {
    let l = Lighting { enabled: false, color: "FF3B30".to_string(), brightness: 40 };
    assert!(!swatch_selected(&l, "ff3b30"));
    let on = toggled(&l);
    assert!(on.enabled && on.color == "FF3B30" && on.brightness == 40);
    assert!(swatch_selected(&on, "ff3b30"));
    let c = with_color(&l, "007aff");
    assert!(c.enabled && c.color == "007aff" && c.brightness == 40);
    let b = with_brightness(&l, 85);
    assert!(b.enabled && b.color == "FF3B30" && b.brightness == 85);
}

#[test]
fn tray_rows_follow_device_lines() {
    let mut tray = Tray::new();
    set_device_lines(&mut tray, &vec!["x".to_string()], "idle");
    assert!(tray.state.is_none());
    assert_eq!(request_refresh(&tray), None);
    install(&mut tray, "No devices connected", "Open OpenLogi", "Quit OpenLogi");
    {
        let s = tray.state.as_ref().expect("installed");
        assert_eq!(s.rows.len(), MAX_DEVICE_ROWS);
        assert_eq!(s.rows[0].title, "No devices connected");
        assert!(!s.rows[0].hidden);
        assert!(s.rows[1..].iter().all(|r| r.hidden));
    }
    let lines = vec!["MX Master 3S · 80%".to_string(), "Lift · 20%".to_string()];
    set_device_lines(&mut tray, &lines, "No devices connected");
    {
        let s = tray.state.as_ref().expect("installed");
        assert_eq!(s.rows[0].title, "MX Master 3S · 80%");
        assert_eq!(s.rows[1].title, "Lift · 20%");
        assert!(!s.rows[0].hidden && !s.rows[1].hidden);
        assert!(s.rows[2..].iter().all(|r| r.hidden));
    }
    set_device_lines(&mut tray, &Vec::new(), "Aucun appareil");
    {
        let s = tray.state.as_ref().expect("installed");
        assert_eq!(s.rows[0].title, "Aucun appareil");
        assert!(!s.rows[0].hidden);
        assert!(s.rows[1..].iter().all(|r| r.hidden));
    }
    set_visible(&mut tray, false);
    assert!(!tray.state.as_ref().unwrap().visible);
    refresh_labels(&mut tray, "Ouvrir", "Quitter");
    assert_eq!(tray.state.as_ref().unwrap().open_title, "Ouvrir");
    assert_eq!(request_refresh(&tray), Some(TrayEvent::Refresh));
    install(&mut tray, "again", "o", "q");
    assert_eq!(tray.state.as_ref().unwrap().open_title, "Ouvrir");
    uninstall(&mut tray);
    assert!(tray.state.is_none());
    assert_eq!(ActivationPolicy::Regular.as_raw(), 0);
    assert_eq!(ActivationPolicy::Accessory.as_raw(), 1);
}

#[test]
fn pairing_pause_is_lifted_only_by_the_last_terminal() {
    let mut st = PairingState::new();
    st.start();
    st.start();
    assert_eq!(st.sessions, 2);
    assert!(st.pairing_active);
    let u: PairingUpdate<u8> = st.on_event(PairingEvent::Failed("cancelled".to_string()));
    assert!(matches!(u, PairingUpdate::Failed(ref s) if s == "cancelled"));
    assert!(st.pairing_active);
    let u: PairingUpdate<u8> = st.on_event(PairingEvent::Paired { slot: 2 });
    assert!(matches!(u, PairingUpdate::Paired { slot: 2 }));
    assert!(!st.pairing_active);
    assert_eq!(st.sessions, 0);
    st.start();
    st.on_watcher_closed();
    assert!(!st.pairing_active);
    assert_eq!(st.sessions, 0);
}

#[test]
fn pairing_caches_devices_by_address() {
    let mut st = PairingState::new();
    st.start();
    let a = [1, 2, 3, 4, 5, 6];
    let u: PairingUpdate<u8> = st.on_event(PairingEvent::DeviceFound(DiscoveredDevice {
        address: a,
        name: "Lift".to_string(),
    }));
    assert!(matches!(u, PairingUpdate::DeviceFound(ref f) if f.address == a && f.name == "Lift"));
    let _: PairingUpdate<u8> = st.on_event(PairingEvent::DeviceFound(DiscoveredDevice {
        address: a,
        name: "Lift 2".to_string(),
    }));
    assert_eq!(st.devices.len(), 1);
    assert_eq!(st.device_for(a).map(|d| d.name), Some("Lift 2".to_string()));
    assert!(st.device_for([9; 6]).is_none());
    let u: PairingUpdate<u8> = st.on_event(PairingEvent::Passkey(7));
    assert!(matches!(u, PairingUpdate::Passkey(7)));
    assert!(st.pairing_active);
    st.start();
    assert!(st.device_for(a).is_none());
}

#[test]
fn picker_groups_in_first_seen_order() {
    let sections = group_by_category(&vec![3, 1, 3, 2, 1]);
    let got: Vec<(u32, Vec<usize>)> = sections.into_iter().map(|s| (s.category, s.items)).collect();
    assert_eq!(got, vec![(3, vec![0, 2]), (1, vec![1, 4]), (2, vec![3])]);
    assert!(group_by_category(&vec![]).is_empty());
}

#[test]
fn watcher_reports_changes_only() {
    let mut w = TrustWatch::new();
    assert_eq!(w.observe(false), Some(false));
    assert_eq!(w.observe(false), None);
    assert_eq!(w.observe(true), Some(true));
    assert_eq!(w.observe(true), None);
    assert_eq!(w.observe(false), Some(false));
}

#[test]
fn capture_wait_polls_thirty_times_then_gives_up() {
    assert_eq!(CAPTURE_IDLE_POLLS, 30);
    assert_eq!(CAPTURE_IDLE_POLL_MS, 100);
    assert_eq!(capture_wait_step(0, true), CaptureWait::Proceed);
    assert_eq!(capture_wait_step(0, false), CaptureWait::Sleep);
    assert_eq!(capture_wait_step(29, false), CaptureWait::Sleep);
    assert_eq!(capture_wait_step(29, true), CaptureWait::Proceed);
    assert_eq!(capture_wait_step(30, false), CaptureWait::GiveUp);
    assert_eq!(capture_wait_step(30, true), CaptureWait::GiveUp);
    let mut polls: u32 = 0;
    while capture_wait_step(polls, false) == CaptureWait::Sleep {
        polls += 1;
    }
    assert_eq!(polls, 30);
}

#[test]
fn brightness_slider_resyncs_only_on_a_change() {
    let mut last: u8 = 100;
    assert_eq!(brightness_resync(&mut last, 100), None);
    assert_eq!(last, 100);
    assert_eq!(brightness_resync(&mut last, 40), Some(40));
    assert_eq!(last, 40);
    assert_eq!(brightness_resync(&mut last, 40), None);
    assert_eq!(brightness_resync(&mut last, 0), Some(0));
}

#[test]
fn trust_watch_reports_alternating_states_over_a_run() {
    let mut watch = TrustWatch::new();
    let polls = [false, false, true, true, true, false, false, true];
    let reported: Vec<bool> = polls.iter().filter_map(|&g| watch.observe(g)).collect();
    assert_eq!(reported, vec![false, true, false, true]);
    assert_eq!(watch.last, Some(true));
}

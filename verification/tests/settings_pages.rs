use vitobar::config::Config;
use vitobar::pages::{
    appearance_rows, audio_rows, bluetooth_rows, display_rows, network_rows, power_rows, select_option, system_rows, Row,
    SliderInput, SystemFacts,
};
use vitobar::settings::BtInfo;
use vitobar::config::bundled_themes;
use vitobar::readings::{
    battery_text, brightness_percent, cpu_model, disk_usage, format_uptime, gpu_model, ip_addresses, is_muted,
    meminfo_kb, nix_generation, os_name, paired_devices, shell_name, sink_name, trimmed_or,
    wifi_ssid,
};
use vitobar::settings::{
    bt_info, bt_manager, density_options, density_selection, nightlight_mode_options,
    nightlight_mode_selection, power_profile, power_profile_options, power_profile_selection,
    scheduled_nightlight_cmd, theme_options, theme_selection, uses_location,
};

#[test]
fn system_texts() {
    assert_eq!(cpu_model("processor\t: 0\nmodel name\t: AMD Ryzen 7 5800X\n"), "AMD Ryzen 7 5800X");
    assert_eq!(cpu_model(""), "unknown");
    assert_eq!(
        gpu_model(Some("00:02.0 VGA compatible controller: Intel Corporation UHD 620 (rev 07)\n")),
        "Intel Corporation UHD 620 (rev 07)"
    );
    assert_eq!(gpu_model(Some("00:02.0 Audio device: X\n")), "unknown");
    assert_eq!(gpu_model(None), "unknown");
    assert_eq!(os_name(Some("NAME=NixOS\nPRETTY_NAME=\"NixOS 24.05 (Uakari)\"\n")), "NixOS 24.05 (Uakari)");
    assert_eq!(os_name(None), "Linux");
    assert_eq!(wifi_ssid(Some("no:Other\nyes:HomeNet\n")), "HomeNet");
    assert_eq!(wifi_ssid(Some("no:Other\n")), "Not connected");
    assert_eq!(sink_name(Some(" * node.description = \"Speakers\"\n")), "Speakers");
    assert_eq!(sink_name(None), "Default sink");
    assert_eq!(nix_generation(Some("  41   2024-01-01\n  42   2024-02-02   (current)\n")), "42   2024-02-02   (current)");
    assert_eq!(nix_generation(Some("")), "unknown");
    assert_eq!(disk_usage(Some(" Used  Size Use%\n  20G  100G  20%\n")), "20G / 100G (20%)");
    assert_eq!(disk_usage(Some("only\n")), "unknown");
    assert_eq!(
        ip_addresses(Some("lo UNKNOWN 127.0.0.1/8\neth0 UP 192.168.1.5/24 fe80::1/64\nwlan0 DOWN\ndocker0 UP 172.17.0.1/16\n")),
        "eth0: 192.168.1.5  wlan0: DOWN"
    );
    assert_eq!(ip_addresses(None), "unavailable");
    assert_eq!(paired_devices(Some("Device AA:BB My Headphones\nbroken\n")), vec!["My Headphones".to_string()]);
    assert!(paired_devices(None).is_empty());
    assert_eq!(trimmed_or(Some(" 6.6.1\n"), "unknown", false), "6.6.1");
    assert_eq!(trimmed_or(Some("  \n"), "niri", true), "niri");
    assert_eq!(trimmed_or(None, "nixos", false), "nixos");
    assert_eq!(shell_name(Some("/run/current-system/sw/bin/zsh")), "zsh");
    assert_eq!(shell_name(Some("fish")), "fish");
    assert_eq!(shell_name(None), "unknown");
    assert_eq!(format_uptime(59), "0m");
    assert_eq!(format_uptime(3 * 3600 + 125), "3h 2m");
    assert_eq!(format_uptime(2 * 86400 + 3600 + 60), "2d 1h 1m");
    assert_eq!(meminfo_kb("MemTotal:       16000000 kB\nMemAvailable:    8000000 kB\n", "MemAvailable:"), 8000000);
    assert_eq!(meminfo_kb("", "MemTotal:"), 0);
    assert!(is_muted(Some("Volume: 0.40 [MUTED]")));
    assert!(!is_muted(Some("Volume: 0.40")));
    assert_eq!(
        battery_text(&vec![(None, None), (Some("87\n".to_string()), Some("Charging\n".to_string()))]),
        "87% — Charging"
    );
    assert_eq!(battery_text(&vec![(Some("x".to_string()), None)]), "No battery");
    assert_eq!(battery_text(&vec![(Some("5".to_string()), None)]), "5% — Unknown");
}

#[test]
fn appearance_choices() {
    let themes = bundled_themes();
    let opts = theme_options(&themes, None);
    assert_eq!(opts.len(), 11);
    assert_eq!((opts[0].label.as_str(), opts[0].value.as_str()), ("Stylix", ""));
    assert!(opts[0].swatches.is_none());
    assert_eq!(opts[1].value, themes[0].name);
    assert_eq!(opts[1].swatches.as_ref().map(|s| s.len()), Some(16));
    let with_stylix = theme_options(&themes, Some(&themes[1].colors));
    assert_eq!(with_stylix[0].swatches.as_ref().unwrap()[0], themes[1].colors.base00);
    assert_eq!(theme_selection(Some(themes[2].name.as_str()), &themes), 3);
    assert_eq!(theme_selection(Some(""), &themes), 0);
    assert_eq!(theme_selection(Some("No Such Theme"), &themes), 0);
    assert_eq!(theme_selection(None, &themes), 0);
    let d = density_options();
    assert_eq!(d.len(), 5);
    assert_eq!((d[2].label.as_str(), d[2].value.as_str()), ("Default", "31"));
    assert_eq!(density_selection(37), 3);
    assert_eq!(density_selection(30), usize::MAX);
}

#[test]
fn night_light_and_power() {
    let m = nightlight_mode_options();
    assert_eq!(m[1].value, "auto");
    assert_eq!(nightlight_mode_selection("auto"), 1);
    assert_eq!(nightlight_mode_selection("scheduled"), 0);
    assert!(uses_location("auto", true, true));
    assert!(!uses_location("auto", true, false));
    assert!(!uses_location("scheduled", true, true));
    assert_eq!(
        scheduled_nightlight_cmd(20, 6, 4000),
        "pkill wlsunset; wlsunset -S 06:00 -s 20:00 -t 4000 -T 6500"
    );
    let p = power_profile_options();
    assert_eq!(p.len(), 3);
    assert_eq!(power_profile_selection("balanced"), 1);
    assert_eq!(power_profile_selection("turbo"), usize::MAX);
    assert_eq!(power_profile(Some("performance\n")), Some("performance".to_string()));
    assert_eq!(power_profile(Some("  ")), None);
    assert_eq!(bt_manager(&[false, true, true]), Some("overskride"));
    assert_eq!(bt_manager(&[false, false, false]), None);
}

#[test]
fn bluetooth_page_state() {
    let off = bt_info(Some("Powered: no\n"), None);
    assert!(!off.powered);
    assert_eq!(off.status_text, "Off");
    let on = bt_info(Some("Powered: yes\n"), Some("Missing device\n"));
    assert!(on.powered);
    assert_eq!(on.status_text, "On, no device connected");
    let c = bt_info(Some("Powered: yes\n"), Some("Device X\n\tName: WH-1000XM4\n\tConnected: yes\n"));
    assert_eq!(c.status_text, "Connected: WH-1000XM4");
}

#[test]
fn brightness_is_read_from_field_three() {
    assert_eq!(brightness_percent("intel_backlight,backlight,1200,5%,24000\n"), Some(5));
    assert_eq!(brightness_percent("a,b,c, 42%%"), Some(42));
    assert_eq!(brightness_percent("a,b,c, 42% "), None);
    assert_eq!(brightness_percent("a,b,c"), None);
    assert_eq!(brightness_percent("a,b,c,high,d"), None);
}


fn labels(rows: &[Row]) -> Vec<String> {
    rows.iter()
        .map(|r| match r {
            Row::Slider { label, .. }
            | Row::ConfigSlider { label, .. }
            | Row::Toggle { label, .. }
            | Row::Info { label, .. }
            | Row::Button { label, .. }
            | Row::Header { label }
            | Row::Selector { label, .. } => label.clone(),
        })
        .collect()
}

#[test]
fn appearance_page_rows() {
    let config = Config::default();
    let themes = bundled_themes();
    let rows = appearance_rows(&config, &themes, None, "/home/u/.config/vitobar/config.toml");
    assert_eq!(
        labels(&rows),
        vec!["Theme", "Color Scheme", "", "Bar", "Density", "Bar Height", "Taskbar Height", "Opacity", "Typography", "Font Size", "Config", "File"]
    );
    match &rows[1] {
        Row::Selector { options, selected, key, .. } => {
            assert_eq!(options.len(), themes.len() + 1);
            assert_eq!((*selected, key.as_str()), (0, "selected_theme"));
        }
        _ => panic!("expected the colour scheme picker"),
    }
    match &rows[4] {
        Row::Selector { selected, .. } => assert_eq!(*selected, 0), // 21 px is "Mini"
        _ => panic!("expected the density picker"),
    }
    assert!(matches!(&rows[5], Row::ConfigSlider { input: SliderInput::Setting(21), min: 16, max: 48, .. }));
    assert!(matches!(&rows[7], Row::ConfigSlider { input: SliderInput::Opacity, min: 50, max: 100, .. }));
    assert!(matches!(&rows[11], Row::Info { value, .. } if value == "/home/u/.config/vitobar/config.toml"));
}

#[test]
fn display_page_rows() {
    let mut config = Config::default();
    let rows = display_rows(&config, None, None);
    assert_eq!(
        labels(&rows),
        vec!["Night Light", "", "Mode", "Temperature (K)", "Night starts (h)", "Night ends (h)", "\u{f185}  Apply Night Light", "\u{f186}  Turn Off"]
    );
    assert!(matches!(&rows[6], Row::Button { cmd, .. } if cmd == "pkill wlsunset; wlsunset -S 06:00 -s 20:00 -t 4000 -T 6500"));
    config.nightlight_mode = Some("auto".to_string());
    let rows = display_rows(&config, Some("48.100, 11.500"), Some("pkill wlsunset; wlsunset -l 48.1000 -L 11.5000 -t 4000 -T 6500"));
    assert_eq!(labels(&rows)[4], "Location");
    assert!(matches!(&rows[4], Row::Info { value, .. } if value == "48.100, 11.500"));
    assert!(matches!(&rows[5], Row::Button { cmd, .. } if cmd.starts_with("pkill wlsunset; wlsunset -l")));
    let rows = display_rows(&config, None, None);
    assert!(matches!(&rows[4], Row::Info { value, .. } if value == "Set latitude/longitude in config.toml"));
}

#[test]
fn audio_network_and_system_page_rows() {
    let rows = audio_rows("Speakers", 40, true, 75);
    assert_eq!(labels(&rows), vec!["Output", "Device", "Volume", "Mute", "Input", "Mic Volume"]);
    assert!(matches!(&rows[2], Row::Slider { percent: 40, .. }));
    assert!(matches!(&rows[3], Row::Toggle { on: true, .. }));
    assert!(matches!(&rows[5], Row::Slider { percent: 75, cmd_template, .. } if cmd_template == "wpctl set-volume @DEFAULT_AUDIO_SOURCE@ {}%"));
    let rows = network_rows("home", "192.168.1.2");
    assert_eq!(labels(&rows), vec!["WiFi", "SSID", "Addresses", "IP", "\u{f1eb}  Open Network Manager"]);
    let s = |t: &str| t.to_string();
    let rows = system_rows(SystemFacts {
        os: s("NixOS"), hostname: s("box"), kernel: s("6.9"), wm: s("niri"), shell: s("zsh"), uptime: s("1h"),
        cpu: s("cpu"), gpu: s("gpu"), memory: s("1 GB"), disk_root: s("a"), disk_home: s("b"),
        nixos_version: s("24.05"), generation: s("42"),
    });
    assert_eq!(rows.len(), 17);
    assert!(matches!(&rows[16], Row::Info { label, value } if label == "Generation" && value == "42"));
}

#[test]
fn bluetooth_and_power_page_rows() {
    let rows = bluetooth_rows(None, Some("blueman-manager"), &vec!["a".to_string()]);
    assert_eq!(labels(&rows), vec!["Bluetooth", "Status"]);
    let paired: Vec<String> = (1..=7).map(|i| format!("dev{}", i)).collect();
    let bt = BtInfo { powered: true, status_text: "On, no device connected".to_string() };
    let rows = bluetooth_rows(Some(bt), Some("overskride"), &paired);
    assert_eq!(rows.len(), 4 + 1 + 5);
    assert!(matches!(&rows[3], Row::Button { cmd, .. } if cmd == "overskride"));
    assert!(matches!(&rows[9], Row::Info { value, .. } if value == "dev5"));
    let bt = BtInfo { powered: false, status_text: "Off".to_string() };
    let rows = bluetooth_rows(Some(bt), None, &Vec::new());
    assert_eq!(labels(&rows), vec!["Bluetooth", "Power", "Status", "Manager"]);

    let rows = power_rows("No battery", Some("balanced"));
    assert_eq!(labels(&rows)[..3], ["Power Profile", "Profile", "Session"]);
    assert!(matches!(&rows[1], Row::Selector { selected: 1, .. }));
    let rows = power_rows("80% (Charging)", None);
    assert_eq!(labels(&rows)[..4], ["Battery", "Status", "Power Profile", "Profile"]);
    assert!(matches!(&rows[3], Row::Info { value, .. } if value == "power-profiles-daemon not available"));
}

#[test]
fn picking_an_option_selects_it_and_hands_back_its_value() {
    let mut rows = power_rows("No battery", Some("balanced"));
    assert_eq!(select_option(&mut rows[1], 2), Some(("power_profile".to_string(), "performance".to_string())));
    assert!(matches!(&rows[1], Row::Selector { selected: 2, .. }));
    assert_eq!(select_option(&mut rows[1], 3), None);
    assert!(matches!(&rows[1], Row::Selector { selected: 2, .. }));
    assert_eq!(select_option(&mut rows[0], 0), None);
}

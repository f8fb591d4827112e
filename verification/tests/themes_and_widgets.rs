use vitobar::config::{available_themes, bundled_themes, hex_to_rgba, parse_theme, stylix_colors};
use vitobar::netspeed::{fmt_rate, NetSampler};
use vitobar::widgets::{net_totals, net_totals_checked, parse_weather, weather_from_fields, select_media, weather_candidates, weather_url};

#[test]
fn bundled_themes_all_parse() {
    let themes = bundled_themes();
    assert_eq!(themes.len(), 10, "all bundled scheme files should parse");
    for t in &themes {
        assert!(!t.name.is_empty());
        assert_eq!(t.colors.base00.len(), 6, "{} base00 must be a 6-digit hex", t.name);
        assert_eq!(t.colors.swatches().len(), 16);
    }
}

#[test]
fn media_prefers_playing_and_keeps_controls_on_the_same_instance() {
    let output = "firefox.instance1\tPaused\tOld video\tChannel\nspotify\tPlaying\tSong\tArtist";
    let selected = select_media(output, "firefox.instance1");
    assert_eq!(selected.player, "spotify");
    assert_eq!(selected.title, "Song");
    assert!(selected.playing);
    let both = output.replace("Paused", "Playing");
    assert_eq!(select_media(&both, "firefox.instance1").player, "firefox.instance1");
    assert!(!select_media("spotify\tStopped\tOld song\tArtist", "spotify").present);
    assert!(!select_media("", "spotify").present);
    assert!(!select_media("broken row", "").present);
}

const WEATHER: &str = r#"{
    "current_condition": [{"weatherCode":"113", "temp_F":"72", "temp_C":"22",
        "FeelsLikeF":"70", "FeelsLikeC":"21", "weatherDesc":[{"value":"Clear"}]}],
    "weather": [{"maxtempF":"85", "mintempF":"60", "maxtempC":"29", "mintempC":"16"}],
    "nearest_area": [{"areaName":[{"value":"Park Ridge"}]}]
}"#;

#[test]
fn weather_uses_current_temperature_in_requested_units() {
    let f = parse_weather(WEATHER, "f").unwrap();
    assert_eq!((f.temp, f.feels_like, f.hi, f.lo, f.unit), (72, 70, 85, 60, "F"));
    assert_eq!(f.location, "Park Ridge");
    let wrapped = format!("{{\"data\":{}}}", WEATHER);
    let c = parse_weather(&wrapped, "C").unwrap();
    assert_eq!((c.temp, c.hi, c.lo), (22, 29, 16));
    assert!(parse_weather("{}", "F").is_none());
}

#[test]
fn weather_reads_description_and_code() {
    let f = parse_weather(WEATHER, "F").unwrap();
    assert_eq!(f.description, "Clear");
    assert_eq!(f.code, 113);
    assert_eq!(f.feels_like, 70);
    let c = parse_weather(WEATHER, "metric").unwrap();
    assert_eq!((c.temp, c.feels_like, c.unit), (22, 21, "C"));
}

#[test]
fn weather_needs_arrays_where_the_report_has_them() {
    let keyed = "{\"current_condition\":{\"0\":{\"weatherCode\":\"113\",\"temp_C\":\"20\",\"FeelsLikeC\":\"19\"}},\
        \"weather\":[{\"maxtempC\":\"25\",\"mintempC\":\"10\"}]}";
    assert!(parse_weather(keyed, "C").is_none());
    let listed = "{\"current_condition\":[{\"weatherCode\":\"113\",\"temp_C\":\"20\",\"FeelsLikeC\":\"19\"}],\
        \"weather\":[{\"maxtempC\":\"25\",\"mintempC\":\"10\"}],\"nearest_area\":{\"0\":{\"areaName\":[{\"value\":\"X\"}]}}}";
    let w = parse_weather(listed, "C").unwrap();
    assert_eq!((w.temp, w.feels_like, w.hi, w.lo, w.code), (20, 19, 25, 10, 113));
    assert_eq!(w.location, "");
    assert_eq!(w.description, "");
}

#[test]
fn weather_glyphs_by_code() {
    assert_eq!(weather_candidates(113), &['\u{e30d}', '\u{f185}']);
    assert_eq!(weather_candidates(338), &['\u{e31a}', '\u{f2dc}']);
    assert_eq!(weather_candidates(200), &['\u{e31d}', '\u{f0e7}']);
    assert_eq!(weather_candidates(999), &['\u{e318}', '\u{f043}']);
}

#[test]
fn weather_url_encodes_location() {
    let u = weather_url("Park Ridge");
    assert!(u.contains("Park%20Ridge"));
    assert!(u.ends_with("?format=j1"));
}

#[test]
fn weather_url_keeps_the_location_in_one_segment() {
    assert_eq!(weather_url("  New York?x=1&y#z/ "), "https://wttr.in/New%20York%3Fx%3D1%26y%23z%2F?format=j1");
    assert_eq!(weather_url("Zürich"), "https://wttr.in/Z%C3%BCrich?format=j1");
}

#[test]
fn net_totals_skip_headers_and_loopback() {
    let dev = "Inter-|   Receive\n face |bytes\n    lo: 100 1 0 0 0 0 0 0 100 1 0 0 0 0 0 0\n  eth0: 2000 10 0 0 0 0 0 0 500 5 0 0 0 0 0 0\n wlan0: 30 1 0 0 0 0 0 0 7 1 0 0 0 0 0 0\n";
    assert_eq!(net_totals(dev), (2030, 507));
    assert_eq!(net_totals(""), (0, 0));
}

#[test]
fn net_sampler_rates() {
    let mut s = NetSampler::new((1000, 500), 0);
    assert_eq!((s.up, s.down), (0, 0));
    s.sample((3000, 1500), 2_000_000);
    assert_eq!(s.down, 1000);
    assert_eq!(s.up, 500);
    s.sample((3000, 1500), 3_000_000);
    assert_eq!((s.up, s.down), (0, 0));
    // counters that went backwards count as no traffic
    s.sample((10, 10), 4_000_000);
    assert_eq!((s.up, s.down), (0, 0));
    // an interval under a millisecond counts as one
    s.sample((1010, 10), 4_000_100);
    assert_eq!(s.down, 1_000_000);
}

#[test]
fn fmt_rate_units_and_rounding() {
    assert_eq!(fmt_rate(0), "0B");
    assert_eq!(fmt_rate(12), "12B");
    assert_eq!(fmt_rate(1023), "1023B");
    assert_eq!(fmt_rate(1024), "1K");
    assert_eq!(fmt_rate(320 * 1024), "320K");
    assert_eq!(fmt_rate(1536), format!("{:.0}K", 1536f64 / 1024.0));
    assert_eq!(fmt_rate(2560), format!("{:.0}K", 2560f64 / 1024.0));
    assert_eq!(fmt_rate(1_048_576), "1.0M");
    let b: u64 = 1_258_291; // ~1.2M
    assert_eq!(fmt_rate(b), format!("{:.1}M", b as f64 / 1_048_576.0));
    for b in [1_100_000u64, 1_310_720, 5_242_880 + 262_144, 99_999_999, 123_456_789_012] {
        assert_eq!(fmt_rate(b), format!("{:.1}M", b as f64 / 1_048_576.0));
    }
    for b in [1025u64, 1535, 1537, 500_000, 1_048_575] {
        assert_eq!(fmt_rate(b), format!("{:.0}K", b as f64 / 1024.0));
    }
}

#[test]
fn hex_colors() {
    assert_eq!(hex_to_rgba("1e1e2e"), (0x1e, 0x1e, 0x2e, 255));
    assert_eq!(hex_to_rgba("#ff8000"), (255, 128, 0, 255));
    assert_eq!(hex_to_rgba("##ff8000"), (255, 128, 0, 255));
    assert_eq!(hex_to_rgba("fff"), (0, 0, 0, 255));
    assert_eq!(hex_to_rgba("zz0000"), (0, 0, 0, 255));
}

#[test]
fn theme_parsing_and_listing() {
    let json = r##"{"name":"Mine","base00":"000000","base01":"111111","base02":"222222","base03":"333333","base04":"444444","base05":"555555","base06":"666666","base07":"777777","base08":"888888","base09":"999999","base0a":"aaaaaa","base0b":"bbbbbb","base0c":"cccccc","base0d":"dddddd","base0e":"eeeeee","base0f":"ffffff"}"##;
    let parsed = parse_theme(json);
    let all = available_themes(parsed.into_iter().collect());
    assert_eq!(all.len(), 11);
    assert_eq!(all[10].name, "Mine");
    assert_eq!(all[10].colors.base0f, "ffffff");
    assert_eq!(all[0].name, "Catppuccin Mocha");
    assert!(parse_theme("{}").is_none());
}

#[test]
fn stylix_palette_needs_all_colors() {
    assert!(stylix_colors("{}").is_none());
    assert!(stylix_colors("not json").is_none());
}

#[test]
fn net_totals_report_overflow() {
    let dev = "h1\nh2\n eth0: 18446744073709551615 0 0 0 0 0 0 0 1 0 0 0 0 0 0 0\n wlan0: 1 0 0 0 0 0 0 0 1 0 0 0 0 0 0 0\n";
    assert_eq!(net_totals_checked(dev), None);
    let ok = "h1\nh2\n eth0: 5 0 0 0 0 0 0 0 6 0 0 0 0 0 0 0\n";
    assert_eq!(net_totals_checked(ok), Some((5, 6)));
}

fn text(s: &str) -> Option<String> {
    Some(s.to_string())
}

#[test]
fn weather_report_from_its_fields() {
    let w = weather_from_fields(text("113"), text("85"), text("60"), text("72"), text("70"), text(" Park Ridge "), text("Clear "), true)
        .unwrap();
    assert_eq!((w.code, w.hi, w.lo, w.temp, w.feels_like, w.unit), (113, 85, 60, 72, 70, "F"));
    assert_eq!((w.location.as_str(), w.description.as_str(), w.stale), ("Park Ridge", "Clear", false));
    let c = weather_from_fields(text("113"), text("29"), text("16"), text("22"), text("-3"), None, None, false).unwrap();
    assert_eq!((c.temp, c.feels_like, c.unit, c.location.as_str()), (22, -3, "C", ""));
    assert!(weather_from_fields(None, text("1"), text("1"), text("1"), text("1"), None, None, false).is_none());
    assert!(weather_from_fields(text("113"), text("1"), text("x"), text("1"), text("1"), None, None, false).is_none());
    assert!(weather_from_fields(text("-1"), text("1"), text("1"), text("1"), text("1"), None, None, false).is_none());
}

#[test]
fn colours_read_back_as_written() {
    for (r, g, b) in [(0u8, 0u8, 0u8), (0x1e, 0x1e, 0x2e), (255, 128, 7), (0xab, 0xcd, 0xef)] {
        assert_eq!(hex_to_rgba(&format!("#{:02x}{:02x}{:02x}", r, g, b)), (r, g, b, 255));
        assert_eq!(hex_to_rgba(&format!("{:02X}{:02X}{:02X}", r, g, b)), (r, g, b, 255));
    }
}

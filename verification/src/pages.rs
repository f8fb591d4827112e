use vstd::prelude::*;
use vstd::string::StringExecFns;
use crate::config::{
    clamp_u32, min_u32, opt_string_view, unwrap_or_str, unwrap_or_u32, Colors, Config, Theme,
};
use crate::settings::{
    densities, density_options, density_selection, nightlight_mode_options,
    nightlight_mode_selection, option_view, option_views, power_profile_options,
    power_profile_selection, scheduled_cmd_of, scheduled_nightlight_cmd, theme_options,
    theme_selection, theme_selection_of, BtInfo, SelectorOption,
};
use crate::text::decimal;
use crate::workspaces::str_opt;

verus! {

/// Where a settings slider's position comes from: an integer setting, or
/// one of the floating-point settings that the program keeps.
#[derive(Debug, Clone, Copy, PartialEq, Eq, Structural)]
pub enum SliderInput {
    Setting(u32),
    FontSize,
    Opacity,
}

/// A row of a settings page.
#[derive(Debug, Clone)]
pub enum Row {
    /// A slider that runs a command with the chosen percentage in place of
    /// `{}`; it starts at `percent`.
    Slider { label: String, percent: u32, cmd_template: String },
    /// A slider over the setting `key`, from `min` to `max`.
    ConfigSlider { label: String, input: SliderInput, min: u32, max: u32, key: String },
    /// A switch that runs `cmd_on` or `cmd_off`.
    Toggle { label: String, on: bool, cmd_on: String, cmd_off: String },
    /// A label and a text.
    Info { label: String, value: String },
    /// A button that runs `cmd`.
    Button { label: String, cmd: String },
    /// A section title.
    Header { label: String },
    /// A choice among `options` for the setting `key`; `selected` out of
    /// range highlights none.
    Selector { label: String, options: Vec<SelectorOption>, selected: usize, key: String },
}

/// A row with its texts as character sequences.
pub enum RowView {
    Slider { label: Seq<char>, percent: u32, cmd_template: Seq<char> },
    ConfigSlider { label: Seq<char>, input: SliderInput, min: u32, max: u32, key: Seq<char> },
    Toggle { label: Seq<char>, on: bool, cmd_on: Seq<char>, cmd_off: Seq<char> },
    Info { label: Seq<char>, value: Seq<char> },
    Button { label: Seq<char>, cmd: Seq<char> },
    Header { label: Seq<char> },
    Selector {
        label: Seq<char>,
        options: Seq<(Seq<char>, Seq<char>, Option<Seq<Seq<char>>>)>,
        selected: int,
        key: Seq<char>,
    },
}

pub open spec fn row_view(r: Row) -> RowView {
    match r {
        Row::Slider { label, percent, cmd_template } => RowView::Slider {
            label: label@,
            percent,
            cmd_template: cmd_template@,
        },
        Row::ConfigSlider { label, input, min, max, key } => RowView::ConfigSlider {
            label: label@,
            input,
            min,
            max,
            key: key@,
        },
        Row::Toggle { label, on, cmd_on, cmd_off } => RowView::Toggle {
            label: label@,
            on,
            cmd_on: cmd_on@,
            cmd_off: cmd_off@,
        },
        Row::Info { label, value } => RowView::Info { label: label@, value: value@ },
        Row::Button { label, cmd } => RowView::Button { label: label@, cmd: cmd@ },
        Row::Header { label } => RowView::Header { label: label@ },
        Row::Selector { label, options, selected, key } => RowView::Selector {
            label: label@,
            options: option_views(options@),
            selected: selected as int,
            key: key@,
        },
    }
}

pub open spec fn rows_view(v: Seq<Row>) -> Seq<RowView> {
    v.map_values(|r: Row| row_view(r))
}

pub open spec fn header(label: Seq<char>) -> RowView {
    RowView::Header { label }
}

pub open spec fn info(label: Seq<char>, value: Seq<char>) -> RowView {
    RowView::Info { label, value }
}

pub open spec fn button(label: Seq<char>, cmd: Seq<char>) -> RowView {
    RowView::Button { label, cmd }
}

pub open spec fn setting_slider(label: Seq<char>, input: SliderInput, min: u32, max: u32, key: Seq<char>) -> RowView {
    RowView::ConfigSlider { label, input, min, max, key }
}

fn header_row(label: &str) -> (r: Row)
    ensures
        row_view(r) == header(label@),
{
    Row::Header { label: String::from_str(label) }
}

fn info_row(label: &str, value: String) -> (r: Row)
    ensures
        row_view(r) == info(label@, value@),
{
    Row::Info { label: String::from_str(label), value }
}

fn note_row(label: &str, value: &str) -> (r: Row)
    ensures
        row_view(r) == info(label@, value@),
{
    Row::Info { label: String::from_str(label), value: String::from_str(value) }
}

fn button_row(label: &str, cmd: String) -> (r: Row)
    ensures
        row_view(r) == button(label@, cmd@),
{
    Row::Button { label: String::from_str(label), cmd }
}

fn slider_row(label: &str, input: SliderInput, min: u32, max: u32, key: &str) -> (r: Row)
    ensures
        row_view(r) == setting_slider(label@, input, min, max, key@),
{
    Row::ConfigSlider { label: String::from_str(label), input, min, max, key: String::from_str(key) }
}

fn selector_row(label: &str, options: Vec<SelectorOption>, selected: usize, key: &str) -> (r: Row)
    ensures
        row_view(r) == (RowView::Selector {
            label: label@,
            options: option_views(options@),
            selected: selected as int,
            key: key@,
        }),
{
    Row::Selector { label: String::from_str(label), options, selected, key: String::from_str(key) }
}

// ───────────────────────── the option lists ─────────────────────────

/// The colour scheme picker's options: Stylix (empty value; its palette when
/// known), then each theme by name with its palette.
pub open spec fn theme_options_of(themes: Seq<Theme>, stylix: Option<Seq<Seq<char>>>) -> Seq<
    (Seq<char>, Seq<char>, Option<Seq<Seq<char>>>),
> {
    seq![("Stylix"@, Seq::<char>::empty(), stylix)] + themes.map_values(
        |t: Theme| (t.name@, t.name@, Some(t.colors@)),
    )
}

/// The density picker's options.
pub open spec fn density_options_of() -> Seq<(Seq<char>, Seq<char>, Option<Seq<Seq<char>>>)> {
    densities().map_values(
        |d: (Seq<char>, u32)| (d.0, decimal(d.1 as nat), None::<Seq<Seq<char>>>),
    )
}

/// The highlighted density for bar height `h`, `usize::MAX` for none.
pub open spec fn density_selection_of(h: u32) -> int {
    if h == 21 {
        0
    } else if h == 25 {
        1
    } else if h == 31 {
        2
    } else if h == 37 {
        3
    } else if h == 47 {
        4
    } else {
        usize::MAX as int
    }
}

pub open spec fn nightlight_options_of() -> Seq<(Seq<char>, Seq<char>, Option<Seq<Seq<char>>>)> {
    seq![
        ("Scheduled"@, "scheduled"@, None::<Seq<Seq<char>>>),
        ("Auto (location)"@, "auto"@, None::<Seq<Seq<char>>>),
    ]
}

pub open spec fn power_options_of() -> Seq<(Seq<char>, Seq<char>, Option<Seq<Seq<char>>>)> {
    seq![
        ("Power Saver"@, "power-saver"@, None::<Seq<Seq<char>>>),
        ("Balanced"@, "balanced"@, None::<Seq<Seq<char>>>),
        ("Performance"@, "performance"@, None::<Seq<Seq<char>>>),
    ]
}

/// The highlighted power profile for the active one, `usize::MAX` for none.
pub open spec fn power_selection_of(active: Seq<char>) -> int {
    if active == "power-saver"@ {
        0
    } else if active == "balanced"@ {
        1
    } else if active == "performance"@ {
        2
    } else {
        usize::MAX as int
    }
}

pub open spec fn opt_colors(c: Option<&Colors>) -> Option<Seq<Seq<char>>> {
    match c {
        Some(c) => Some(c@),
        None => None,
    }
}

// ───────────────────────── the pages ─────────────────────────

/// The Appearance page: the colour scheme picker, the bar's density, heights
/// and opacity, the font size, and where the settings file is.
pub open spec fn appearance_page(
    c: Config,
    themes: Seq<Theme>,
    stylix: Option<Seq<Seq<char>>>,
    file: Seq<char>,
) -> Seq<RowView> {
    seq![
        header("Theme"@),
        RowView::Selector {
            label: "Color Scheme"@,
            options: theme_options_of(themes, stylix),
            selected: theme_selection_of(opt_string_view(c.selected_theme), themes),
            key: "selected_theme"@,
        },
        info(""@, "Stylix follows your system colors. Restart the bar to apply."@),
        header("Bar"@),
        RowView::Selector {
            label: "Density"@,
            options: density_options_of(),
            selected: density_selection_of(unwrap_or_u32(c.bar_height, 21)),
            key: "bar_density"@,
        },
        setting_slider("Bar Height"@, SliderInput::Setting(unwrap_or_u32(c.bar_height, 21)), 16, 48, "bar_height"@),
        setting_slider(
            "Taskbar Height"@,
            SliderInput::Setting(unwrap_or_u32(c.taskbar_height, 21)),
            16,
            48,
            "taskbar_height"@,
        ),
        setting_slider("Opacity"@, SliderInput::Opacity, 50, 100, "bar_opacity"@),
        header("Typography"@),
        setting_slider("Font Size"@, SliderInput::FontSize, 8, 20, "font_size"@),
        header("Config"@),
        info("File"@, file),
    ]
}

/// The rows of the Appearance page, given the selectable themes, the Stylix
/// palette when there is one, and the settings file's path.
pub fn appearance_rows(config: &Config, themes: &Vec<Theme>, stylix: Option<&Colors>, config_file: &str) -> (r: Vec<Row>)
    ensures
        rows_view(r@) == appearance_page(*config, themes@, opt_colors(stylix), config_file@),
{
    let opts = theme_options(themes, stylix);
    proof {
        let want = theme_options_of(themes@, opt_colors(stylix));
        assert forall|k: int| 0 <= k < opts@.len() implies option_views(opts@)[k] == want[k] by {
            if k > 0 {
                let j = k - 1;
                assert(option_view(opts@[j + 1]) == (
                    themes@[j].name@,
                    themes@[j].name@,
                    Some(themes@[j].colors@),
                ));
            }
        }
        assert(option_views(opts@) =~= want);
    }
    let selected_name: Option<&str> = match &config.selected_theme {
        Some(s) => Some(s.as_str()),
        None => None,
    };
    assert(str_opt(selected_name) == opt_string_view(config.selected_theme));
    let sel = theme_selection(selected_name, themes);
    let dens = density_options();
    assert(option_views(dens@) =~= density_options_of());
    let bar_h = config.bar_h();
    let taskbar_h = config.taskbar_h();
    let mut r: Vec<Row> = Vec::new();
    r.push(header_row("Theme"));
    r.push(selector_row("Color Scheme", opts, sel, "selected_theme"));
    r.push(note_row("", "Stylix follows your system colors. Restart the bar to apply."));
    r.push(header_row("Bar"));
    r.push(selector_row("Density", dens, density_selection(bar_h), "bar_density"));
    r.push(slider_row("Bar Height", SliderInput::Setting(bar_h), 16, 48, "bar_height"));
    r.push(slider_row("Taskbar Height", SliderInput::Setting(taskbar_h), 16, 48, "taskbar_height"));
    r.push(slider_row("Opacity", SliderInput::Opacity, 50, 100, "bar_opacity"));
    r.push(header_row("Typography"));
    r.push(slider_row("Font Size", SliderInput::FontSize, 8, 20, "font_size"));
    r.push(header_row("Config"));
    r.push(note_row("File", config_file));
    assert(rows_view(r@) =~= appearance_page(*config, themes@, opt_colors(stylix), config_file@));
    r
}

pub open spec fn opt_str_view(o: Option<&str>) -> Option<Seq<char>> {
    match o {
        Some(s) => Some(s@),
        None => None,
    }
}

/// The Display page: the night light's mode, its colour temperature, its
/// location (in `auto` mode) or its hours, and buttons to apply it or turn
/// it off. `coordinates` is the configured location as text and
/// `location_cmd` the command that follows it, both when latitude and
/// longitude are set.
pub open spec fn display_page(
    c: Config,
    coordinates: Option<Seq<char>>,
    location_cmd: Option<Seq<char>>,
) -> Seq<RowView> {
    let mode = unwrap_or_str(c.nightlight_mode, "scheduled"@);
    let auto = mode == "auto"@;
    let temp = clamp_u32(unwrap_or_u32(c.nightlight_temp, 4000), 1000, 6500);
    let start = min_u32(unwrap_or_u32(c.nightlight_start, 20), 23);
    let end = min_u32(unwrap_or_u32(c.nightlight_end, 6), 23);
    let head = seq![
        header("Night Light"@),
        info(""@, "Warms screen colors to reduce blue light (needs wlsunset)."@),
        RowView::Selector {
            label: "Mode"@,
            options: nightlight_options_of(),
            selected: if auto { 1 } else { 0 },
            key: "nightlight_mode"@,
        },
        setting_slider("Temperature (K)"@, SliderInput::Setting(temp), 2500, 6000, "nightlight_temp"@),
    ];
    let middle = if auto {
        seq![
            info(
                "Location"@,
                match coordinates {
                    Some(t) => t,
                    None => "Set latitude/longitude in config.toml"@,
                },
            ),
        ]
    } else {
        seq![
            setting_slider("Night starts (h)"@, SliderInput::Setting(start), 0, 23, "nightlight_start"@),
            setting_slider("Night ends (h)"@, SliderInput::Setting(end), 0, 23, "nightlight_end"@),
        ]
    };
    let cmd = match location_cmd {
        Some(l) if auto => l,
        _ => scheduled_cmd_of(start as nat, end as nat, temp as nat),
    };
    head + middle + seq![
        button("\u{f185}  Apply Night Light"@, cmd),
        button("\u{f186}  Turn Off"@, "pkill wlsunset"@),
    ]
}

/// The rows of the Display page.
pub fn display_rows(config: &Config, coordinates: Option<&str>, location_cmd: Option<&str>) -> (r: Vec<Row>)
    ensures
        rows_view(r@) == display_page(*config, opt_str_view(coordinates), opt_str_view(location_cmd)),
{
    let mode = config.nightlight_mode();
    let temp = config.nightlight_temp();
    let start = config.nightlight_start();
    let end = config.nightlight_end();
    let sel = nightlight_mode_selection(mode);
    let auto = sel == 1;
    let opts = nightlight_mode_options();
    assert(option_views(opts@) =~= nightlight_options_of());
    let mut r: Vec<Row> = Vec::new();
    r.push(header_row("Night Light"));
    r.push(note_row("", "Warms screen colors to reduce blue light (needs wlsunset)."));
    r.push(selector_row("Mode", opts, sel, "nightlight_mode"));
    r.push(slider_row("Temperature (K)", SliderInput::Setting(temp), 2500, 6000, "nightlight_temp"));
    let ghost head = rows_view(r@);
    if auto {
        match coordinates {
            Some(t) => r.push(note_row("Location", t)),
            None => r.push(note_row("Location", "Set latitude/longitude in config.toml")),
        }
    } else {
        r.push(slider_row("Night starts (h)", SliderInput::Setting(start), 0, 23, "nightlight_start"));
        r.push(slider_row("Night ends (h)", SliderInput::Setting(end), 0, 23, "nightlight_end"));
    }
    let cmd = match location_cmd {
        Some(l) if auto => String::from_str(l),
        _ => scheduled_nightlight_cmd(start, end, temp),
    };
    r.push(button_row("\u{f185}  Apply Night Light", cmd));
    r.push(button_row("\u{f186}  Turn Off", String::from_str("pkill wlsunset")));
    assert(rows_view(r@) =~= display_page(*config, opt_str_view(coordinates), opt_str_view(location_cmd)));
    r
}

/// The Audio page: the output device, its volume and mute switch, and the
/// microphone's volume, the volumes in percent.
pub open spec fn audio_page(device: Seq<char>, volume: u32, muted: bool, mic: u32) -> Seq<RowView> {
    seq![
        header("Output"@),
        info("Device"@, device),
        RowView::Slider {
            label: "Volume"@,
            percent: volume,
            cmd_template: "wpctl set-volume @DEFAULT_AUDIO_SINK@ {}%"@,
        },
        RowView::Toggle {
            label: "Mute"@,
            on: muted,
            cmd_on: "wpctl set-mute @DEFAULT_AUDIO_SINK@ 1"@,
            cmd_off: "wpctl set-mute @DEFAULT_AUDIO_SINK@ 0"@,
        },
        header("Input"@),
        RowView::Slider {
            label: "Mic Volume"@,
            percent: mic,
            cmd_template: "wpctl set-volume @DEFAULT_AUDIO_SOURCE@ {}%"@,
        },
    ]
}

/// The rows of the Audio page.
pub fn audio_rows(device: &str, volume: u32, muted: bool, mic: u32) -> (r: Vec<Row>)
    ensures
        rows_view(r@) == audio_page(device@, volume, muted, mic),
{
    let mut r: Vec<Row> = Vec::new();
    r.push(header_row("Output"));
    r.push(note_row("Device", device));
    r.push(
        Row::Slider {
            label: String::from_str("Volume"),
            percent: volume,
            cmd_template: String::from_str("wpctl set-volume @DEFAULT_AUDIO_SINK@ {}%"),
        },
    );
    r.push(
        Row::Toggle {
            label: String::from_str("Mute"),
            on: muted,
            cmd_on: String::from_str("wpctl set-mute @DEFAULT_AUDIO_SINK@ 1"),
            cmd_off: String::from_str("wpctl set-mute @DEFAULT_AUDIO_SINK@ 0"),
        },
    );
    r.push(header_row("Input"));
    r.push(
        Row::Slider {
            label: String::from_str("Mic Volume"),
            percent: mic,
            cmd_template: String::from_str("wpctl set-volume @DEFAULT_AUDIO_SOURCE@ {}%"),
        },
    );
    assert(rows_view(r@) =~= audio_page(device@, volume, muted, mic));
    r
}

/// Paired devices as rows, at most the first five.
pub open spec fn device_rows(paired: Seq<Seq<char>>) -> Seq<RowView> {
    let shown = if paired.len() <= 5 { paired } else { paired.take(5) };
    shown.map_values(|d: Seq<char>| info("\u{f294}"@, d))
}

/// The Bluetooth page: without an adapter (`bt` is `None`) only that; else
/// the power switch, the status, the manager to open (or a hint to install
/// one), and the first five paired devices under their own header.
pub open spec fn bluetooth_page(
    bt: Option<(bool, Seq<char>)>,
    manager: Option<Seq<char>>,
    paired: Seq<Seq<char>>,
) -> Seq<RowView> {
    match bt {
        None => seq![header("Bluetooth"@), info("Status"@, "No adapter found"@)],
        Some((powered, status)) => {
            let head = seq![
                header("Bluetooth"@),
                RowView::Toggle {
                    label: "Power"@,
                    on: powered,
                    cmd_on: "rfkill unblock bluetooth; bluetoothctl power on"@,
                    cmd_off: "bluetoothctl power off"@,
                },
                info("Status"@, status),
                match manager {
                    Some(m) => button("\u{f294}  Open Bluetooth Manager"@, m),
                    None => info("Manager"@, "Install blueman, overskride, or blueberry"@),
                },
            ];
            if paired.len() == 0 {
                head
            } else {
                head + seq![header("Paired Devices"@)] + device_rows(paired)
            }
        },
    }
}

pub open spec fn bt_view(bt: Option<BtInfo>) -> Option<(bool, Seq<char>)> {
    match bt {
        Some(b) => Some((b.powered, b.status_text@)),
        None => None,
    }
}

pub open spec fn string_seq_views(v: Seq<String>) -> Seq<Seq<char>> {
    v.map_values(|s: String| s@)
}

/// The rows of the Bluetooth page, given the adapter's state (`None` when
/// there is no adapter), the manager to offer and the paired devices' names.
pub fn bluetooth_rows(bt: Option<BtInfo>, manager: Option<&str>, paired: &Vec<String>) -> (r: Vec<Row>)
    ensures
        rows_view(r@) == bluetooth_page(bt_view(bt), opt_str_view(manager), string_seq_views(paired@)),
{
    let ghost btv = bt_view(bt);
    let mut r: Vec<Row> = Vec::new();
    match bt {
        None => {
            r.push(header_row("Bluetooth"));
            r.push(note_row("Status", "No adapter found"));
            assert(rows_view(r@) =~= bluetooth_page(btv, opt_str_view(manager), string_seq_views(paired@)));
            return r;
        },
        Some(b) => {
            r.push(header_row("Bluetooth"));
            r.push(
                Row::Toggle {
                    label: String::from_str("Power"),
                    on: b.powered,
                    cmd_on: String::from_str("rfkill unblock bluetooth; bluetoothctl power on"),
                    cmd_off: String::from_str("bluetoothctl power off"),
                },
            );
            r.push(info_row("Status", b.status_text));
        },
    }
    match manager {
        Some(m) => r.push(button_row("\u{f294}  Open Bluetooth Manager", String::from_str(m))),
        None => r.push(note_row("Manager", "Install blueman, overskride, or blueberry")),
    }
    let ghost head = rows_view(r@);
    let ghost pv = string_seq_views(paired@);
    if paired.len() == 0 {
        assert(rows_view(r@) =~= bluetooth_page(btv, opt_str_view(manager), pv));
        return r;
    }
    r.push(header_row("Paired Devices"));
    let n: usize = if paired.len() <= 5 { paired.len() } else { 5 };
    let ghost shown = if pv.len() <= 5 { pv } else { pv.take(5) };
    assert(shown.len() == n);
    let mut i: usize = 0;
    while i < n
        invariant
            i <= n,
            n <= paired@.len(),
            shown.len() == n,
            pv == string_seq_views(paired@),
            shown == (if pv.len() <= 5 { pv } else { pv.take(5) }),
            rows_view(r@) == head + seq![header("Paired Devices"@)] + shown.take(i as int).map_values(
                |d: Seq<char>| info("\u{f294}"@, d),
            ),
        decreases n - i,
    {
        let ghost before = rows_view(r@);
        r.push(info_row("\u{f294}", paired[i].clone()));
        proof {
            assert(shown[i as int] == paired@[i as int]@);
            assert(shown.take(i + 1).map_values(|d: Seq<char>| info("\u{f294}"@, d)) =~= shown.take(
                i as int,
            ).map_values(|d: Seq<char>| info("\u{f294}"@, d)).push(info("\u{f294}"@, shown[i as int])));
            assert(rows_view(r@) =~= before.push(info("\u{f294}"@, paired@[i as int]@)));
        }
        i += 1;
    }
    assert(shown.take(n as int) =~= shown);
    assert(rows_view(r@) =~= bluetooth_page(btv, opt_str_view(manager), pv));
    r
}

/// The Network page: the Wi-Fi network, the addresses, and a button to open
/// the network manager.
pub open spec fn network_page(ssid: Seq<char>, ips: Seq<char>) -> Seq<RowView> {
    seq![
        header("WiFi"@),
        info("SSID"@, ssid),
        header("Addresses"@),
        info("IP"@, ips),
        button("\u{f1eb}  Open Network Manager"@, "nm-connection-editor"@),
    ]
}

/// The rows of the Network page.
pub fn network_rows(ssid: &str, ips: &str) -> (r: Vec<Row>)
    ensures
        rows_view(r@) == network_page(ssid@, ips@),
{
    let mut r: Vec<Row> = Vec::new();
    r.push(header_row("WiFi"));
    r.push(note_row("SSID", ssid));
    r.push(header_row("Addresses"));
    r.push(note_row("IP", ips));
    r.push(button_row("\u{f1eb}  Open Network Manager", String::from_str("nm-connection-editor")));
    assert(rows_view(r@) =~= network_page(ssid@, ips@));
    r
}

/// The Power page: the battery when there is one, the power profile picker
/// (or a note that the daemon is missing), and the session buttons.
pub open spec fn power_page(battery: Seq<char>, profile: Option<Seq<char>>) -> Seq<RowView> {
    let bat = if battery != "No battery"@ {
        seq![header("Battery"@), info("Status"@, battery)]
    } else {
        Seq::<RowView>::empty()
    };
    let prof = match profile {
        Some(a) => RowView::Selector {
            label: "Profile"@,
            options: power_options_of(),
            selected: power_selection_of(a),
            key: "power_profile"@,
        },
        None => info("Profile"@, "power-profiles-daemon not available"@),
    };
    bat + seq![
        header("Power Profile"@),
        prof,
        header("Session"@),
        button("\u{f186}  Suspend"@, "systemctl suspend"@),
        button("\u{f7c9}  Hibernate"@, "systemctl hibernate"@),
        button("\u{f021}  Reboot"@, "systemctl reboot"@),
        button("\u{f011}  Shutdown"@, "systemctl poweroff"@),
    ]
}

/// The rows of the Power page, given the battery text and the active power
/// profile, if the daemon told it.
pub fn power_rows(battery: &str, profile: Option<&str>) -> (r: Vec<Row>)
    ensures
        rows_view(r@) == power_page(battery@, opt_str_view(profile)),
{
    let mut r: Vec<Row> = Vec::new();
    let b = crate::text::chars_of(battery);
    let none = crate::text::chars_of("No battery");
    if !crate::text::same_chars(b.as_slice(), none.as_slice()) {
        r.push(header_row("Battery"));
        r.push(note_row("Status", battery));
    }
    r.push(header_row("Power Profile"));
    match profile {
        Some(a) => {
            let opts = power_profile_options();
            assert(option_views(opts@) =~= power_options_of());
            r.push(selector_row("Profile", opts, power_profile_selection(a), "power_profile"));
        },
        None => r.push(note_row("Profile", "power-profiles-daemon not available")),
    }
    r.push(header_row("Session"));
    r.push(button_row("\u{f186}  Suspend", String::from_str("systemctl suspend")));
    r.push(button_row("\u{f7c9}  Hibernate", String::from_str("systemctl hibernate")));
    r.push(button_row("\u{f021}  Reboot", String::from_str("systemctl reboot")));
    r.push(button_row("\u{f011}  Shutdown", String::from_str("systemctl poweroff")));
    assert(rows_view(r@) =~= power_page(battery@, opt_str_view(profile)));
    r
}

/// What the System page shows, each as text.
#[derive(Debug, Clone)]
pub struct SystemFacts {
    pub os: String,
    pub hostname: String,
    pub kernel: String,
    pub wm: String,
    pub shell: String,
    pub uptime: String,
    pub cpu: String,
    pub gpu: String,
    pub memory: String,
    pub disk_root: String,
    pub disk_home: String,
    pub nixos_version: String,
    pub generation: String,
}

/// The System page: the system, the hardware, the storage and NixOS, each
/// fact under its label.
pub open spec fn system_page(f: SystemFacts) -> Seq<RowView> {
    seq![
        header("System"@),
        info("OS"@, f.os@),
        info("Hostname"@, f.hostname@),
        info("Kernel"@, f.kernel@),
        info("WM"@, f.wm@),
        info("Shell"@, f.shell@),
        info("Uptime"@, f.uptime@),
        header("Hardware"@),
        info("CPU"@, f.cpu@),
        info("GPU"@, f.gpu@),
        info("Memory"@, f.memory@),
        header("Storage"@),
        info("/"@, f.disk_root@),
        info("/home"@, f.disk_home@),
        header("NixOS"@),
        info("Version"@, f.nixos_version@),
        info("Generation"@, f.generation@),
    ]
}

/// The rows of the System page.
pub fn system_rows(f: SystemFacts) -> (r: Vec<Row>)
    ensures
        rows_view(r@) == system_page(f),
{
    let ghost g = f;
    let mut r: Vec<Row> = Vec::new();
    r.push(header_row("System"));
    r.push(info_row("OS", f.os));
    r.push(info_row("Hostname", f.hostname));
    r.push(info_row("Kernel", f.kernel));
    r.push(info_row("WM", f.wm));
    r.push(info_row("Shell", f.shell));
    r.push(info_row("Uptime", f.uptime));
    r.push(header_row("Hardware"));
    r.push(info_row("CPU", f.cpu));
    r.push(info_row("GPU", f.gpu));
    r.push(info_row("Memory", f.memory));
    r.push(header_row("Storage"));
    r.push(info_row("/", f.disk_root));
    r.push(info_row("/home", f.disk_home));
    r.push(header_row("NixOS"));
    r.push(info_row("Version", f.nixos_version));
    r.push(info_row("Generation", f.generation));
    assert(rows_view(r@) =~= system_page(g));
    r
}

/// Picks option `idx` of a selector row: the row then highlights it, and the
/// setting's key and the option's value are handed back to be saved. Any
/// other row, or an option that does not exist, changes nothing.
pub fn select_option(row: &mut Row, idx: usize) -> (r: Option<(String, String)>)
    ensures
        match row_view(*old(row)) {
            RowView::Selector { label, options, selected, key } => if idx < options.len() {
                &&& r matches Some((k, v)) && k@ == key && v@ == options[idx as int].1
                &&& row_view(*final(row)) == (RowView::Selector {
                    label,
                    options,
                    selected: idx as int,
                    key,
                })
            } else {
                r is None && row_view(*final(row)) == row_view(*old(row))
            },
            _ => r is None && row_view(*final(row)) == row_view(*old(row)),
        },
{
    match row {
        Row::Selector { options, selected, key, .. } => {
            if idx < options.len() {
                *selected = idx;
                let value = options[idx].value.clone();
                let k = key.clone();
                Some((k, value))
            } else {
                None
            }
        },
        _ => None,
    }
}

} // verus!

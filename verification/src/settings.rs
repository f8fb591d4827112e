use vstd::prelude::*;
use vstd::string::StringExecFns;
use crate::bluetooth::{connected_device, device_name_of};
use crate::config::{Colors, Theme, string_views};
use crate::workspaces::str_opt;
use crate::text::{chars_of, contains, contains_chars, decimal, decimal_of, same_chars, string_of, trim, trim_chars};

verus! {

/// One choice of a selector row.
#[derive(Debug, Clone)]
pub struct SelectorOption {
    pub label: String,
    pub value: String,
    /// 16 hex colors for theme previews
    pub swatches: Option<Vec<String>>,
}

/// An option as its label, value and swatches.
pub open spec fn option_view(o: SelectorOption) -> (Seq<char>, Seq<char>, Option<Seq<Seq<char>>>) {
    (
        o.label@,
        o.value@,
        match o.swatches {
            Some(v) => Some(string_views(v@)),
            None => None,
        },
    )
}

pub open spec fn option_views(v: Seq<SelectorOption>) -> Seq<
    (Seq<char>, Seq<char>, Option<Seq<Seq<char>>>),
> {
    v.map_values(|o: SelectorOption| option_view(o))
}

fn plain_option(label: &str, value: &str) -> (o: SelectorOption)
    ensures
        option_view(o) == (label@, value@, None::<Seq<Seq<char>>>),
{
    SelectorOption { label: String::from_str(label), value: String::from_str(value), swatches: None }
}

/// The colour scheme picker: Stylix first (an empty value clears the
/// override; its swatches when its palette is known), then each theme under
/// its name with its swatches.
pub fn theme_options(themes: &Vec<Theme>, stylix: Option<&Colors>) -> (r: Vec<SelectorOption>)
    ensures
        r@.len() == themes@.len() + 1,
        option_view(r@[0]) == ("Stylix"@, Seq::<char>::empty(), match stylix {
            Some(c) => Some(c@),
            None => None::<Seq<Seq<char>>>,
        }),
        forall|k: int|
            0 <= k < themes@.len() ==> option_view(#[trigger] r@[k + 1]) == (
                themes@[k].name@,
                themes@[k].name@,
                Some(themes@[k].colors@),
            ),
{
    let mut r: Vec<SelectorOption> = Vec::new();
    let first = SelectorOption {
        label: String::from_str("Stylix"),
        value: String::new(),
        swatches: match stylix {
            Some(c) => Some(c.swatches()),
            None => None,
        },
    };
    r.push(first);
    let mut i: usize = 0;
    while i < themes.len()
        invariant
            i <= themes@.len(),
            r@.len() == i + 1,
            option_view(r@[0]) == ("Stylix"@, Seq::<char>::empty(), match stylix {
                Some(c) => Some(c@),
                None => None::<Seq<Seq<char>>>,
            }),
            forall|k: int|
                0 <= k < i ==> option_view(#[trigger] r@[k + 1]) == (
                    themes@[k].name@,
                    themes@[k].name@,
                    Some(themes@[k].colors@),
                ),
        decreases themes.len() - i,
    {
        let t = &themes[i];
        let o = SelectorOption {
            label: String::from_str(t.name.as_str()),
            value: String::from_str(t.name.as_str()),
            swatches: Some(t.colors.swatches()),
        };
        r.push(o);
        i += 1;
    }
    r
}

/// The first position of a theme named `name` (the count when none is).
pub open spec fn theme_position(themes: Seq<Theme>, name: Seq<char>) -> int
    decreases themes.len(),
{
    if themes.len() == 0 {
        0
    } else if themes[0].name@ == name {
        0
    } else {
        1 + theme_position(themes.skip(1), name)
    }
}

/// The highlighted option of the picker: the selected theme (options are
/// offset by one for Stylix) when a non-empty name is selected and some theme
/// has it, else Stylix.
pub open spec fn theme_selection_of(selected: Option<Seq<char>>, themes: Seq<Theme>) -> int {
    match selected {
        Some(n) if n.len() > 0 => if theme_position(themes, n) < themes.len() {
            theme_position(themes, n) + 1
        } else {
            0
        },
        _ => 0,
    }
}

pub fn theme_selection(selected: Option<&str>, themes: &Vec<Theme>) -> (r: usize)
    ensures
        r == theme_selection_of(str_opt(selected), themes@),
{
    match selected {
        Some(n) => {
            let nc = chars_of(n);
            if nc.len() == 0 {
                return 0;
            }
            let mut i: usize = 0;
            assert(themes@.skip(0) =~= themes@);
            while i < themes.len()
                invariant
                    i <= themes@.len(),
                    nc@ == n@,
                    n@.len() > 0,
                    str_opt(selected) == Some(n@),
                    theme_position(themes@, n@) == i + theme_position(themes@.skip(i as int), n@),
                decreases themes.len() - i,
            {
                let tc = chars_of(themes[i].name.as_str());
                assert(themes@.skip(i as int)[0] == themes@[i as int]);
                if same_chars(tc.as_slice(), nc.as_slice()) {
                    assert(themes@.skip(i as int)[0].name@ == n@);
                    assert(theme_position(themes@.skip(i as int), n@) == 0);
                    assert(n@.len() > 0);
                    assert(theme_position(themes@, n@) == i);
                    assert(theme_selection_of(Some(n@), themes@) == i + 1);
                    assert(str_opt(selected) == Some(n@));
                    return i + 1;
                }
                assert(themes@.skip(i as int).skip(1) =~= themes@.skip(i + 1));
                i += 1;
            }
            0
        },
        None => 0,
    }
}

/// The bar density presets: a name and the bar height it sets.
pub open spec fn densities() -> Seq<(Seq<char>, u32)> {
    seq![
        ("Mini"@, 21u32),
        ("Compact"@, 25u32),
        ("Default"@, 31u32),
        ("Comfortable"@, 37u32),
        ("Spacious"@, 47u32),
    ]
}

/// The density picker: each preset under its name, valued by its height.
pub fn density_options() -> (r: Vec<SelectorOption>)
    ensures
        r@.len() == densities().len(),
        forall|k: int|
            0 <= k < r@.len() ==> option_view(#[trigger] r@[k]) == (
                densities()[k].0,
                decimal(densities()[k].1 as nat),
                None::<Seq<Seq<char>>>,
            ),
{
    let mut r: Vec<SelectorOption> = Vec::new();
    r.push(density_option("Mini", 21));
    r.push(density_option("Compact", 25));
    r.push(density_option("Default", 31));
    r.push(density_option("Comfortable", 37));
    r.push(density_option("Spacious", 47));
    r
}

fn density_option(label: &str, h: u32) -> (o: SelectorOption)
    ensures
        option_view(o) == (label@, decimal(h as nat), None::<Seq<Seq<char>>>),
{
    let d = decimal_of(h as u64);
    SelectorOption { label: String::from_str(label), value: string_of(d.as_slice()), swatches: None }
}

/// The highlighted density: the first preset whose height is the bar's, or
/// none (`usize::MAX`).
pub fn density_selection(bar_h: u32) -> (r: usize)
    ensures
        r == if bar_h == 21 {
            0
        } else if bar_h == 25 {
            1
        } else if bar_h == 31 {
            2
        } else if bar_h == 37 {
            3
        } else if bar_h == 47 {
            4
        } else {
            usize::MAX
        },
{
    if bar_h == 21 {
        0
    } else if bar_h == 25 {
        1
    } else if bar_h == 31 {
        2
    } else if bar_h == 37 {
        3
    } else if bar_h == 47 {
        4
    } else {
        usize::MAX
    }
}

/// The night-light mode picker: scheduled, or by location.
pub fn nightlight_mode_options() -> (r: Vec<SelectorOption>)
    ensures
        r@.len() == 2,
        option_view(r@[0]) == ("Scheduled"@, "scheduled"@, None::<Seq<Seq<char>>>),
        option_view(r@[1]) == ("Auto (location)"@, "auto"@, None::<Seq<Seq<char>>>),
{
    let mut r: Vec<SelectorOption> = Vec::new();
    r.push(plain_option("Scheduled", "scheduled"));
    r.push(plain_option("Auto (location)", "auto"));
    r
}

/// The highlighted mode: "auto" is the second option, anything else the
/// first.
pub fn nightlight_mode_selection(mode: &str) -> (r: usize)
    ensures
        r == if mode@ == "auto"@ { 1usize } else { 0usize },
{
    let m = chars_of(mode);
    let a = chars_of("auto");
    if same_chars(m.as_slice(), a.as_slice()) {
        1
    } else {
        0
    }
}

/// Whether night light follows the sun at a location: in "auto" mode when
/// both coordinates are set; otherwise (also as the fallback) it runs on the
/// schedule.
pub fn uses_location(mode: &str, has_latitude: bool, has_longitude: bool) -> (b: bool)
    ensures
        b == (mode@ == "auto"@ && has_latitude && has_longitude),
{
    let m = chars_of(mode);
    let a = chars_of("auto");
    same_chars(m.as_slice(), a.as_slice()) && has_latitude && has_longitude
}

/// An hour with at least two digits (`{:02}`).
pub open spec fn two_digits(n: nat) -> Seq<char> {
    if n < 10 {
        seq!['0'] + decimal(n)
    } else {
        decimal(n)
    }
}

fn two_digits_of(n: u32) -> (r: Vec<char>)
    ensures
        r@ == two_digits(n as nat),
{
    let d = decimal_of(n as u64);
    if n < 10 {
        let mut r: Vec<char> = Vec::new();
        r.push('0');
        crate::text::push_all(&mut r, d.as_slice());
        assert(r@ =~= seq!['0'] + decimal(n as nat));
        r
    } else {
        d
    }
}

/// The scheduled night-light command: kill any running instance (so it can
/// be re-applied live), then `wlsunset` with sunrise (`-S`, night ends) and
/// sunset (`-s`, night begins) on the hour, night temperature `temp` and day
/// 6500 K.
pub open spec fn scheduled_cmd_of(start: nat, end: nat, temp: nat) -> Seq<char> {
    "pkill wlsunset; wlsunset -S "@ + two_digits(end) + ":00 -s "@ + two_digits(start)
        + ":00 -t "@ + decimal(temp) + " -T 6500"@
}

pub fn scheduled_nightlight_cmd(start: u32, end: u32, temp: u32) -> (r: String)
    ensures
        r@ == scheduled_cmd_of(start as nat, end as nat, temp as nat),
{
    let mut o: Vec<char> = chars_of("pkill wlsunset; wlsunset -S ");
    let e = two_digits_of(end);
    crate::text::push_all(&mut o, e.as_slice());
    let mid = chars_of(":00 -s ");
    crate::text::push_all(&mut o, mid.as_slice());
    let s = two_digits_of(start);
    crate::text::push_all(&mut o, s.as_slice());
    let t_sep = chars_of(":00 -t ");
    crate::text::push_all(&mut o, t_sep.as_slice());
    let t = decimal_of(temp as u64);
    crate::text::push_all(&mut o, t.as_slice());
    let tail = chars_of(" -T 6500");
    crate::text::push_all(&mut o, tail.as_slice());
    assert(o@ =~= scheduled_cmd_of(start as nat, end as nat, temp as nat));
    string_of(o.as_slice())
}

/// The power profile picker.
pub fn power_profile_options() -> (r: Vec<SelectorOption>)
    ensures
        r@.len() == 3,
        option_view(r@[0]) == ("Power Saver"@, "power-saver"@, None::<Seq<Seq<char>>>),
        option_view(r@[1]) == ("Balanced"@, "balanced"@, None::<Seq<Seq<char>>>),
        option_view(r@[2]) == ("Performance"@, "performance"@, None::<Seq<Seq<char>>>),
{
    let mut r: Vec<SelectorOption> = Vec::new();
    r.push(plain_option("Power Saver", "power-saver"));
    r.push(plain_option("Balanced", "balanced"));
    r.push(plain_option("Performance", "performance"));
    r
}

/// The highlighted profile: the option whose value is the active profile,
/// or none (`usize::MAX`).
pub fn power_profile_selection(active: &str) -> (r: usize)
    ensures
        r == if active@ == "power-saver"@ {
            0usize
        } else if active@ == "balanced"@ {
            1usize
        } else if active@ == "performance"@ {
            2usize
        } else {
            usize::MAX
        },
{
    let a = chars_of(active);
    let p0 = chars_of("power-saver");
    let p1 = chars_of("balanced");
    let p2 = chars_of("performance");
    if same_chars(a.as_slice(), p0.as_slice()) {
        0
    } else if same_chars(a.as_slice(), p1.as_slice()) {
        1
    } else if same_chars(a.as_slice(), p2.as_slice()) {
        2
    } else {
        usize::MAX
    }
}

/// The active power profile from `powerprofilesctl get` output (when it
/// succeeded), trimmed; none when empty.
pub fn power_profile(out: Option<&str>) -> (r: Option<String>)
    ensures
        match out {
            Some(t) if trim(t@).len() > 0 => r matches Some(p) && p@ == trim(t@),
            _ => r is None,
        },
{
    match out {
        Some(t) => {
            let cs = chars_of(t);
            let tc = trim_chars(cs.as_slice());
            if tc.len() == 0 {
                None
            } else {
                Some(string_of(tc.as_slice()))
            }
        },
        None => None,
    }
}

/// The Bluetooth manager GUIs, in order of preference.
pub open spec fn bt_managers() -> Seq<Seq<char>> {
    seq!["blueman-manager"@, "overskride"@, "blueberry"@]
}

/// The first installed Bluetooth manager GUI, given whether each of
/// [`bt_managers`] is installed.
pub fn bt_manager(installed: &[bool]) -> (r: Option<&'static str>)
    ensures
        match r {
            Some(m) => exists|k: int|
                0 <= k < 3 && k < installed@.len() && installed@[k] && m@ == bt_managers()[k] && forall|
                    j: int,
                | 0 <= j < k ==> !#[trigger] installed@[j],
            None => forall|j: int| 0 <= j < 3 && j < installed@.len() ==> !#[trigger] installed@[j],
        },
{
    if installed.len() > 0 && installed[0] {
        Some("blueman-manager")
    } else if installed.len() > 1 && installed[1] {
        Some("overskride")
    } else if installed.len() > 2 && installed[2] {
        Some("blueberry")
    } else {
        None
    }
}

/// Bluetooth as the settings page shows it.
#[derive(Debug, Clone)]
pub struct BtInfo {
    pub powered: bool,
    pub status_text: String,
}

/// The Bluetooth page's state from `bluetoothctl show` (its output when it
/// succeeded) and `bluetoothctl info` (its output when it ran): off unless
/// powered; then connected to the named device, or on with none.
pub open spec fn bt_info_of(show: Option<Seq<char>>, info: Option<Seq<char>>) -> (bool, Seq<char>) {
    match show {
        Some(s) if contains(s, "Powered: yes"@) => match connected_device(info) {
            Some(n) => (true, "Connected: "@ + n),
            None => (true, "On, no device connected"@),
        },
        _ => (false, "Off"@),
    }
}

pub fn bt_info(show: Option<&str>, info: Option<&str>) -> (r: BtInfo)
    ensures
        (r.powered, r.status_text@) == bt_info_of(
            match show {
                Some(s) => Some(s@),
                None => None,
            },
            match info {
                Some(s) => Some(s@),
                None => None,
            },
        ),
{
    let powered = match show {
        Some(s) => {
            let sc = chars_of(s);
            let key = chars_of("Powered: yes");
            contains_chars(sc.as_slice(), key.as_slice())
        },
        None => false,
    };
    if !powered {
        return BtInfo { powered: false, status_text: String::from_str("Off") };
    }
    if let Some(t) = info {
        let tc = chars_of(t);
        let key = chars_of("Connected: yes");
        if contains_chars(tc.as_slice(), key.as_slice()) {
            let name = device_name_of(tc.as_slice());
            let mut s = String::from_str("Connected: ");
            let n = string_of(name.as_slice());
            s.append(n.as_str());
            return BtInfo { powered: true, status_text: s };
        }
    }
    BtInfo { powered: true, status_text: String::from_str("On, no device connected") }
}

} // verus!

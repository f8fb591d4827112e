use vstd::prelude::*;
use sysinfo::{Component, Components, ProcessRefreshKind, System};
use crate::text::{
    ascii_lowercase, ascii_lowercase_chars, chars_of, contains, contains_chars, string_of,
};

verus! {

#[verifier::external_type_specification]
#[verifier::external_body]
pub struct ExSystem(System);

#[verifier::external_type_specification]
#[verifier::external_body]
pub struct ExComponents(Components);

/// A sensor; Verus needs it declared because `Components` hands them out.
#[verifier::external_type_specification]
#[verifier::external_body]
pub struct ExComponent(Component);

/// `System::new`: a handle on the machine's state with nothing loaded yet.
#[verifier::external_body]
fn new_system() -> System {
    System::new()
}

/// `System::refresh_cpu_usage`: samples the CPUs' usage.
#[verifier::external_body]
fn refresh_cpu_usage(sys: &mut System) {
    sys.refresh_cpu_usage()
}

/// `System::refresh_memory`: samples memory use.
#[verifier::external_body]
fn refresh_memory(sys: &mut System) {
    sys.refresh_memory()
}

/// `Components::new_with_refreshed_list`: the machine's sensors.
#[verifier::external_body]
fn new_components() -> Components {
    Components::new_with_refreshed_list()
}

/// `System::refresh_processes_specifics` with `ProcessRefreshKind::new()`:
/// reloads the process list without extra details.
#[verifier::external_body]
fn refresh_process_list(sys: &mut System) {
    sys.refresh_processes_specifics(ProcessRefreshKind::new())
}

/// `System::processes` with each `Process::name`: the names of the running
/// processes as last loaded, in the order the process table is walked. What
/// they are depends on the machine, so nothing is promised of them.
#[verifier::external_body]
fn process_names(sys: &System) -> Vec<String> {
    let mut names: Vec<String> = Vec::new();
    for p in sys.processes().values() {
        names.push(p.name().to_string());
    }
    names
}

/// Holds the handles through which the bar samples the machine.
pub struct SysMonitor {
    pub sys: System,
    pub components: Components,
}

/// The GUI apps recognised as running in the background: the process names
/// that give each one away, and the app id it is shown under.
pub open spec fn known_apps() -> Seq<(Seq<Seq<char>>, Seq<char>)> {
    seq![
        (seq!["Discord"@, "discord"@, "vesktop"@, "Vesktop"@], "discord"@),
        (seq!["steam"@, "Steam"@], "steam"@),
        (seq!["spotify"@, "Spotify"@], "spotify"@),
        (seq!["upc"@, "UbisoftConnect"@, "uplay"@], "ubisoft"@),
        (seq!["telegram-desktop"@, "telegram"@, "Telegram"@], "telegram"@),
        (seq!["slack"@, "Slack"@], "slack"@),
        (seq!["obs"@, "OBS"@], "obs"@),
        (seq!["signal-desktop"@, "Signal"@], "signal"@),
        (seq!["thunderbird"@, "Thunderbird"@], "thunderbird"@),
        (seq!["lutris"@, "Lutris"@], "lutris"@),
        (seq!["heroic"@, "Heroic"@], "heroic"@),
    ]
}

/// Whether some process name contains one of the patterns.
pub open spec fn running(names: Seq<Seq<char>>, patterns: Seq<Seq<char>>) -> bool {
    exists|i: int, j: int|
        0 <= i < names.len() && 0 <= j < patterns.len() && #[trigger] contains(
            names[i],
            #[trigger] patterns[j],
        )
}

/// Whether a window's app id, in ASCII lower case, contains `app`.
pub open spec fn has_window(window_ids: Seq<Seq<char>>, app: Seq<char>) -> bool {
    exists|i: int| 0 <= i < window_ids.len() && #[trigger] contains(ascii_lowercase(window_ids[i]), app)
}

/// The known apps (the first `n` of the table) that run without a window, in
/// the table's order.
pub open spec fn background_of(
    names: Seq<Seq<char>>,
    window_ids: Seq<Seq<char>>,
    n: int,
) -> Seq<Seq<char>>
    decreases n,
{
    if n <= 0 {
        Seq::empty()
    } else {
        let rest = background_of(names, window_ids, n - 1);
        let entry = known_apps()[n - 1];
        if running(names, entry.0) && !has_window(window_ids, entry.1) {
            rest.push(entry.1)
        } else {
            rest
        }
    }
}

pub open spec fn string_seqs(v: Seq<String>) -> Seq<Seq<char>> {
    v.map_values(|s: String| s@)
}

pub open spec fn char_seqs(v: Seq<Vec<char>>) -> Seq<Seq<char>> {
    v.map_values(|x: Vec<char>| x@)
}

fn entry(patterns: &[&str], app: &str) -> (r: (Vec<Vec<char>>, Vec<char>))
    ensures
        r.0@.len() == patterns@.len(),
        forall|k: int| 0 <= k < patterns@.len() ==> #[trigger] r.0@[k]@ == patterns@[k]@,
        r.1@ == app@,
{
    let mut ps: Vec<Vec<char>> = Vec::new();
    let mut k: usize = 0;
    while k < patterns.len()
        invariant
            k <= patterns@.len(),
            ps@.len() == k,
            forall|j: int| 0 <= j < k ==> #[trigger] ps@[j]@ == patterns@[j]@,
        decreases patterns.len() - k,
    {
        ps.push(chars_of(patterns[k]));
        k += 1;
    }
    (ps, chars_of(app))
}

fn known_apps_table() -> (t: Vec<(Vec<Vec<char>>, Vec<char>)>)
    ensures
        t@.len() == known_apps().len(),
        forall|i: int|
            0 <= i < t@.len() ==> {
                &&& (#[trigger] t@[i]).0@.len() == known_apps()[i].0.len()
                &&& forall|j: int| 0 <= j < t@[i].0@.len() ==> #[trigger] t@[i].0@[j]@ == known_apps()[i].0[j]
                &&& t@[i].1@ == known_apps()[i].1
            },
{
    let mut t: Vec<(Vec<Vec<char>>, Vec<char>)> = Vec::new();
    t.push(entry(&["Discord", "discord", "vesktop", "Vesktop"], "discord"));
    t.push(entry(&["steam", "Steam"], "steam"));
    t.push(entry(&["spotify", "Spotify"], "spotify"));
    t.push(entry(&["upc", "UbisoftConnect", "uplay"], "ubisoft"));
    t.push(entry(&["telegram-desktop", "telegram", "Telegram"], "telegram"));
    t.push(entry(&["slack", "Slack"], "slack"));
    t.push(entry(&["obs", "OBS"], "obs"));
    t.push(entry(&["signal-desktop", "Signal"], "signal"));
    t.push(entry(&["thunderbird", "Thunderbird"], "thunderbird"));
    t.push(entry(&["lutris", "Lutris"], "lutris"));
    t.push(entry(&["heroic", "Heroic"], "heroic"));
    assert(forall|i: int| 0 <= i < t@.len() ==> #[trigger] t@[i].0@.len() == known_apps()[i].0.len());
    t
}

fn any_running(names: &Vec<Vec<char>>, patterns: &Vec<Vec<char>>) -> (b: bool)
    ensures
        b == running(char_seqs(names@), char_seqs(patterns@)),
{
    let ghost ns = char_seqs(names@);
    let ghost ps = char_seqs(patterns@);
    let mut i: usize = 0;
    while i < names.len()
        invariant
            i <= names@.len(),
            ns == char_seqs(names@),
            ps == char_seqs(patterns@),
            forall|a: int, b: int|
                0 <= a < i && 0 <= b < ps.len() ==> !#[trigger] contains(ns[a], #[trigger] ps[b]),
        decreases names.len() - i,
    {
        let mut j: usize = 0;
        while j < patterns.len()
            invariant
                i < names@.len(),
                j <= patterns@.len(),
                ns == char_seqs(names@),
                ps == char_seqs(patterns@),
                forall|a: int, b: int|
                    0 <= a < i && 0 <= b < ps.len() ==> !#[trigger] contains(ns[a], #[trigger] ps[b]),
                forall|b: int| 0 <= b < j ==> !#[trigger] contains(ns[i as int], ps[b]),
            decreases patterns.len() - j,
        {
            if contains_chars(names[i].as_slice(), patterns[j].as_slice()) {
                assert(contains(ns[i as int], ps[j as int]));
                return true;
            }
            j += 1;
        }
        i += 1;
    }
    false
}

fn any_window(window_ids: &Vec<Vec<char>>, app: &Vec<char>) -> (b: bool)
    ensures
        b == has_window(char_seqs(window_ids@), app@),
{
    let ghost ws = char_seqs(window_ids@);
    let mut i: usize = 0;
    while i < window_ids.len()
        invariant
            i <= window_ids@.len(),
            ws == char_seqs(window_ids@),
            forall|a: int| 0 <= a < i ==> !#[trigger] contains(ascii_lowercase(ws[a]), app@),
        decreases window_ids.len() - i,
    {
        let lower = ascii_lowercase_chars(window_ids[i].as_slice());
        if contains_chars(lower.as_slice(), app.as_slice()) {
            assert(contains(ascii_lowercase(ws[i as int]), app@));
            return true;
        }
        i += 1;
    }
    false
}

fn chars_list(v: &[String]) -> (r: Vec<Vec<char>>)
    ensures
        char_seqs(r@) == string_seqs(v@),
{
    let mut r: Vec<Vec<char>> = Vec::new();
    let mut i: usize = 0;
    while i < v.len()
        invariant
            i <= v@.len(),
            r@.len() == i,
            forall|k: int| 0 <= k < i ==> #[trigger] r@[k]@ == v@[k]@,
        decreases v.len() - i,
    {
        r.push(chars_of(v[i].as_str()));
        i += 1;
    }
    assert(char_seqs(r@) =~= string_seqs(v@));
    r
}

/// The known GUI apps that run as processes (`process_names`) without a
/// window among `window_app_ids`, by app id, in the table's order.
pub fn background_apps(process_names: &[String], window_app_ids: &[String]) -> (r: Vec<String>)
    ensures
        string_seqs(r@) == background_of(
            string_seqs(process_names@),
            string_seqs(window_app_ids@),
            known_apps().len() as int,
        ),
{
    let ghost ns = string_seqs(process_names@);
    let ghost ws = string_seqs(window_app_ids@);
    let names = chars_list(process_names);
    let wins = chars_list(window_app_ids);
    let table = known_apps_table();
    let mut found: Vec<String> = Vec::new();
    let mut k: usize = 0;
    while k < table.len()
        invariant
            k <= table@.len(),
            table@.len() == known_apps().len(),
            forall|i: int|
                0 <= i < table@.len() ==> {
                    &&& (#[trigger] table@[i]).0@.len() == known_apps()[i].0.len()
                    &&& forall|j: int|
                        0 <= j < table@[i].0@.len() ==> #[trigger] table@[i].0@[j]@
                            == known_apps()[i].0[j]
                    &&& table@[i].1@ == known_apps()[i].1
                },
            char_seqs(names@) == ns,
            char_seqs(wins@) == ws,
            string_seqs(found@) == background_of(ns, ws, k as int),
        decreases table.len() - k,
    {
        let pats = &table[k].0;
        let app = &table[k].1;
        assert(char_seqs(pats@) =~= known_apps()[k as int].0);
        let run = any_running(&names, pats);
        if run {
            let win = any_window(&wins, app);
            if !win {
                found.push(string_of(app.as_slice()));
            }
        }
        k += 1;
        assert(string_seqs(found@) =~= background_of(ns, ws, k as int));
    }
    found
}

/// The parts of a sensor's label (in ASCII lower case) that mark a CPU
/// sensor.
pub open spec fn cpu_sensor_parts() -> Seq<Seq<char>> {
    seq!["package id"@, "tctl"@, "tdie"@, "coretemp"@, "k10temp"@, "cpu"@]
}

/// The parts of a sensor's label (in ASCII lower case) that mark a GPU
/// sensor.
pub open spec fn gpu_sensor_parts() -> Seq<Seq<char>> {
    seq!["amdgpu"@, "nvidia"@, "i915"@, "xe"@, "edge"@, "junction"@, "gpu"@]
}

/// Whether `s` contains one of `parts`.
pub open spec fn holds_any(s: Seq<char>, parts: Seq<Seq<char>>) -> bool {
    exists|j: int| 0 <= j < parts.len() && #[trigger] contains(s, parts[j])
}

fn holds_any_of(s: &[char], parts: &[&str]) -> (b: bool)
    ensures
        b == exists|j: int| 0 <= j < parts@.len() && #[trigger] contains(s@, parts@[j]@),
{
    let mut j: usize = 0;
    while j < parts.len()
        invariant
            j <= parts@.len(),
            forall|q: int| 0 <= q < j ==> !#[trigger] contains(s@, parts@[q]@),
        decreases parts.len() - j,
    {
        let p = chars_of(parts[j]);
        if contains_chars(s, p.as_slice()) {
            return true;
        }
        j += 1;
    }
    false
}

/// Whether a temperature sensor, by its label, reads the CPU and whether it
/// reads the GPU (a label may match both).
pub fn sensor_kind(label: &str) -> (r: (bool, bool))
    ensures
        r.0 == holds_any(ascii_lowercase(label@), cpu_sensor_parts()),
        r.1 == holds_any(ascii_lowercase(label@), gpu_sensor_parts()),
{
    let l = chars_of(label);
    let low = ascii_lowercase_chars(l.as_slice());
    let cpu_parts: [&str; 6] = ["package id", "tctl", "tdie", "coretemp", "k10temp", "cpu"];
    let gpu_parts: [&str; 7] = ["amdgpu", "nvidia", "i915", "xe", "edge", "junction", "gpu"];
    let cpu = holds_any_of(low.as_slice(), cpu_parts.as_slice());
    let gpu = holds_any_of(low.as_slice(), gpu_parts.as_slice());
    proof {
        assert(cpu_parts@.len() == 6);
        assert(forall|j: int| 0 <= j < 6 ==> #[trigger] cpu_parts@[j]@ == cpu_sensor_parts()[j]);
        assert(forall|j: int| 0 <= j < 7 ==> #[trigger] gpu_parts@[j]@ == gpu_sensor_parts()[j]);
    }
    (cpu, gpu)
}

impl SysMonitor {
    /// Opens the handles and takes a first CPU and memory sample (a CPU
    /// reading needs a previous one).
    pub fn new() -> (m: SysMonitor) {
        let mut sys = new_system();
        refresh_cpu_usage(&mut sys);
        refresh_memory(&mut sys);
        let components = new_components();
        SysMonitor { sys, components }
    }

    /// Detects GUI apps running as processes but not present as compositor
    /// windows: reloads the process list and checks it against the known
    /// apps (see [`background_apps`]).
    pub fn detect_background_apps(&mut self, window_app_ids: &[String]) -> (r: Vec<String>)
        ensures
            exists|names: Seq<String>|
                string_seqs(r@) == background_of(
                    #[trigger] string_seqs(names),
                    string_seqs(window_app_ids@),
                    known_apps().len() as int,
                ),
    {
        refresh_process_list(&mut self.sys);
        let names = process_names(&self.sys);
        background_apps(names.as_slice(), window_app_ids)
    }
}

} // verus!

use vstd::prelude::*;
use crate::text::{
    chars_of, contains, contains_chars, copy_range, decimal, decimal_of, join, join_chars, lines,
    lines_of, parse_u32, parse_u64, parse_unsigned, push_all, split_once, split_once_chars,
    starts_with, starts_with_chars, string_of, trim, trim_chars, trim_end_char, trim_end_char_chars,
    trim_start_char, trim_start_char_chars, views, words, words_of,
};

verus! {

// ───────────────────────── finding lines ─────────────────────────

/// The position of the first line that satisfies `pred` (the count of lines
/// when none does).
pub open spec fn first_index(ls: Seq<Seq<char>>, pred: spec_fn(Seq<char>) -> bool) -> int
    decreases ls.len(),
{
    if ls.len() == 0 {
        0
    } else if pred(ls[0]) {
        0
    } else {
        1 + first_index(ls.skip(1), pred)
    }
}

/// The first line that satisfies `pred`, if any.
pub open spec fn first_line(ls: Seq<Seq<char>>, pred: spec_fn(Seq<char>) -> bool) -> Option<
    Seq<char>,
> {
    let k = first_index(ls, pred);
    if k < ls.len() {
        Some(ls[k])
    } else {
        None
    }
}

pub open spec fn starts_pred(p: Seq<char>) -> spec_fn(Seq<char>) -> bool {
    |l: Seq<char>| starts_with(l, p)
}

pub open spec fn contains_pred(a: Seq<char>, b: Seq<char>) -> spec_fn(Seq<char>) -> bool {
    |l: Seq<char>| contains(l, a) || contains(l, b)
}

proof fn lemma_first_index_step(ls: Seq<Seq<char>>, pred: spec_fn(Seq<char>) -> bool, i: int)
    requires
        0 <= i < ls.len(),
        !pred(ls[i]),
        first_index(ls, pred) == i + first_index(ls.skip(i), pred),
    ensures
        first_index(ls, pred) == i + 1 + first_index(ls.skip(i + 1), pred),
{
    assert(ls.skip(i).skip(1) =~= ls.skip(i + 1));
    assert(ls.skip(i)[0] == ls[i]);
}

/// The first line starting with `p`, as a position among `ls`.
fn find_starting(ls: &Vec<Vec<char>>, p: &[char]) -> (k: usize)
    ensures
        k == first_index(views(ls@), starts_pred(p@)),
{
    let ghost vs = views(ls@);
    let mut i: usize = 0;
    assert(vs.skip(0) =~= vs);
    while i < ls.len()
        invariant
            i <= ls@.len(),
            vs == views(ls@),
            first_index(vs, starts_pred(p@)) == i + first_index(vs.skip(i as int), starts_pred(p@)),
        decreases ls.len() - i,
    {
        if starts_with_chars(ls[i].as_slice(), p) {
            assert(vs.skip(i as int)[0] == vs[i as int]);
            return i;
        }
        proof {
            lemma_first_index_step(vs, starts_pred(p@), i as int);
        }
        i += 1;
    }
    i
}

/// The first line containing `a` or `b`, as a position among `ls`.
fn find_containing(ls: &Vec<Vec<char>>, a: &[char], b: &[char]) -> (k: usize)
    ensures
        k == first_index(views(ls@), contains_pred(a@, b@)),
{
    let ghost vs = views(ls@);
    let mut i: usize = 0;
    assert(vs.skip(0) =~= vs);
    while i < ls.len()
        invariant
            i <= ls@.len(),
            vs == views(ls@),
            first_index(vs, contains_pred(a@, b@)) == i + first_index(
                vs.skip(i as int),
                contains_pred(a@, b@),
            ),
        decreases ls.len() - i,
    {
        if contains_chars(ls[i].as_slice(), a) || contains_chars(ls[i].as_slice(), b) {
            assert(vs.skip(i as int)[0] == vs[i as int]);
            return i;
        }
        proof {
            lemma_first_index_step(vs, contains_pred(a@, b@), i as int);
        }
        i += 1;
    }
    i
}

/// `s` with `p` stripped from its start as often as it repeats there
/// (`str::trim_start_matches` with a text).
pub open spec fn strip_all_prefix(s: Seq<char>, p: Seq<char>) -> Seq<char>
    decreases s.len(),
{
    if p.len() > 0 && starts_with(s, p) {
        strip_all_prefix(s.skip(p.len() as int), p)
    } else {
        s
    }
}

fn strip_all_prefix_chars(s: &[char], p: &[char]) -> (r: Vec<char>)
    ensures
        r@ == strip_all_prefix(s@, p@),
{
    let mut cur = copy_range(s, 0, s.len());
    assert(cur@ =~= s@);
    if p.len() == 0 {
        return cur;
    }
    while starts_with_chars(cur.as_slice(), p)
        invariant
            p@.len() > 0,
            strip_all_prefix(cur@, p@) == strip_all_prefix(s@, p@),
        decreases cur@.len(),
    {
        let next = copy_range(cur.as_slice(), p.len(), cur.len());
        assert(next@ =~= cur@.skip(p@.len() as int));
        cur = next;
    }
    cur
}

/// `s` without the quotes around it (`str::trim_matches('"')`).
pub open spec fn unquote(s: Seq<char>) -> Seq<char> {
    trim_end_char(trim_start_char(s, '"'), '"')
}

fn unquote_chars(s: &[char]) -> (r: Vec<char>)
    ensures
        r@ == unquote(s@),
{
    let a = trim_start_char_chars(s, '"');
    trim_end_char_chars(a.as_slice(), '"')
}

/// The text after the first `c`, if there is one.
pub open spec fn after(s: Seq<char>, c: char) -> Option<Seq<char>> {
    match split_once(s, c) {
        Some((_, rest)) => Some(rest),
        None => None,
    }
}

fn after_chars(s: &[char], c: char) -> (r: Option<Vec<char>>)
    ensures
        match r {
            Some(v) => after(s@, c) == Some(v@),
            None => after(s@, c) is None,
        },
{
    match split_once_chars(s, c) {
        Some((_, rest)) => Some(rest),
        None => None,
    }
}

fn text(s: &str) -> (r: String)
    ensures
        r@ == s@,
{
    String::from_str(s)
}

// ───────────────────────── the readings ─────────────────────────

/// The CPU model from `/proc/cpuinfo`: the text after the colon of the first
/// `model name` line, trimmed; "unknown" without one.
pub open spec fn cpu_model_of(cpuinfo: Seq<char>) -> Seq<char> {
    match first_line(lines(cpuinfo), starts_pred("model name"@)) {
        Some(l) => match after(l, ':') {
            Some(v) => trim(v),
            None => "unknown"@,
        },
        None => "unknown"@,
    }
}

pub fn cpu_model(cpuinfo: &str) -> (r: String)
    ensures
        r@ == cpu_model_of(cpuinfo@),
{
    let cs = chars_of(cpuinfo);
    let ls = lines_of(cs.as_slice());
    let key = chars_of("model name");
    let k = find_starting(&ls, key.as_slice());
    if k < ls.len() {
        match after_chars(ls[k].as_slice(), ':') {
            Some(v) => {
                let t = trim_chars(v.as_slice());
                string_of(t.as_slice())
            },
            None => text("unknown"),
        }
    } else {
        text("unknown")
    }
}

/// The GPU model from `lspci` output: on the first VGA or 3D controller line,
/// the text after its second colon, trimmed; "unknown" without one, or when
/// that is empty.
pub open spec fn gpu_model_of(lspci: Option<Seq<char>>) -> Seq<char> {
    let found = match lspci {
        Some(t) => match first_line(
            lines(t),
            contains_pred("VGA compatible controller"@, "3D controller"@),
        ) {
            Some(l) => match after(l, ':') {
                Some(rest) => match after(rest, ':') {
                    Some(v) => Some(trim(v)),
                    None => None,
                },
                None => None,
            },
            None => None,
        },
        None => None,
    };
    match found {
        Some(v) if v.len() > 0 => v,
        _ => "unknown"@,
    }
}

pub fn gpu_model(lspci: Option<&str>) -> (r: String)
    ensures
        r@ == gpu_model_of(
            match lspci {
                Some(t) => Some(t@),
                None => None,
            },
        ),
{
    if let Some(t) = lspci {
        let cs = chars_of(t);
        let ls = lines_of(cs.as_slice());
        let a = chars_of("VGA compatible controller");
        let b = chars_of("3D controller");
        let k = find_containing(&ls, a.as_slice(), b.as_slice());
        if k < ls.len() {
            if let Some(rest) = after_chars(ls[k].as_slice(), ':') {
                if let Some(v) = after_chars(rest.as_slice(), ':') {
                    let tv = trim_chars(v.as_slice());
                    if tv.len() > 0 {
                        return string_of(tv.as_slice());
                    }
                }
            }
        }
    }
    text("unknown")
}

/// The OS name from `/etc/os-release`: the first `PRETTY_NAME=` line's value
/// without the quotes; "Linux" without one.
pub open spec fn os_name_of(os_release: Option<Seq<char>>) -> Seq<char> {
    match os_release {
        Some(t) => match first_line(lines(t), starts_pred("PRETTY_NAME="@)) {
            Some(l) => unquote(strip_all_prefix(l, "PRETTY_NAME="@)),
            None => "Linux"@,
        },
        None => "Linux"@,
    }
}

pub fn os_name(os_release: Option<&str>) -> (r: String)
    ensures
        r@ == os_name_of(
            match os_release {
                Some(t) => Some(t@),
                None => None,
            },
        ),
{
    if let Some(t) = os_release {
        let cs = chars_of(t);
        let ls = lines_of(cs.as_slice());
        let key = chars_of("PRETTY_NAME=");
        let k = find_starting(&ls, key.as_slice());
        if k < ls.len() {
            let v = strip_all_prefix_chars(ls[k].as_slice(), key.as_slice());
            let u = unquote_chars(v.as_slice());
            return string_of(u.as_slice());
        }
    }
    text("Linux")
}

/// The connected WiFi network from `nmcli -t -f active,ssid` output (when it
/// succeeded): the first `yes:` line without that prefix; "Not connected"
/// without one.
pub open spec fn wifi_ssid_of(nmcli: Option<Seq<char>>) -> Seq<char> {
    match nmcli {
        Some(t) => match first_line(lines(t), starts_pred("yes:"@)) {
            Some(l) => strip_all_prefix(l, "yes:"@),
            None => "Not connected"@,
        },
        None => "Not connected"@,
    }
}

pub fn wifi_ssid(nmcli: Option<&str>) -> (r: String)
    ensures
        r@ == wifi_ssid_of(
            match nmcli {
                Some(t) => Some(t@),
                None => None,
            },
        ),
{
    if let Some(t) = nmcli {
        let cs = chars_of(t);
        let ls = lines_of(cs.as_slice());
        let key = chars_of("yes:");
        let k = find_starting(&ls, key.as_slice());
        if k < ls.len() {
            let v = strip_all_prefix_chars(ls[k].as_slice(), key.as_slice());
            return string_of(v.as_slice());
        }
    }
    text("Not connected")
}

/// The default audio output's name from `wpctl inspect` output: on the first
/// `node.nick` or `node.description` line, the value after `=`, trimmed and
/// unquoted; "Default sink" without one.
pub open spec fn sink_name_of(wpctl: Option<Seq<char>>) -> Seq<char> {
    match wpctl {
        Some(t) => match first_line(lines(t), contains_pred("node.nick"@, "node.description"@)) {
            Some(l) => match after(l, '=') {
                Some(v) => unquote(trim(v)),
                None => "Default sink"@,
            },
            None => "Default sink"@,
        },
        None => "Default sink"@,
    }
}

pub fn sink_name(wpctl: Option<&str>) -> (r: String)
    ensures
        r@ == sink_name_of(
            match wpctl {
                Some(t) => Some(t@),
                None => None,
            },
        ),
{
    if let Some(t) = wpctl {
        let cs = chars_of(t);
        let ls = lines_of(cs.as_slice());
        let a = chars_of("node.nick");
        let b = chars_of("node.description");
        let k = find_containing(&ls, a.as_slice(), b.as_slice());
        if k < ls.len() {
            if let Some(v) = after_chars(ls[k].as_slice(), '=') {
                let tv = trim_chars(v.as_slice());
                let u = unquote_chars(tv.as_slice());
                return string_of(u.as_slice());
            }
        }
    }
    text("Default sink")
}

/// The current system generation from `nix-env --list-generations` output:
/// its last line, trimmed; "unknown" without output or lines.
pub open spec fn generation_of(out: Option<Seq<char>>) -> Seq<char> {
    match out {
        Some(t) => if lines(t).len() > 0 {
            trim(lines(t).last())
        } else {
            "unknown"@
        },
        None => "unknown"@,
    }
}

pub fn nix_generation(out: Option<&str>) -> (r: String)
    ensures
        r@ == generation_of(
            match out {
                Some(t) => Some(t@),
                None => None,
            },
        ),
{
    if let Some(t) = out {
        let cs = chars_of(t);
        let ls = lines_of(cs.as_slice());
        if ls.len() > 0 {
            let last = trim_chars(ls[ls.len() - 1].as_slice());
            return string_of(last.as_slice());
        }
    }
    text("unknown")
}

/// Disk use from `df -h --output=used,size,pcent` output: on its second
/// line, "used / size (percent)" from the first three words, else that line
/// trimmed; "unknown" without it.
pub open spec fn disk_usage_of(out: Option<Seq<char>>) -> Seq<char> {
    match out {
        Some(t) => if lines(t).len() > 1 {
            let l = lines(t)[1];
            let ws = words(l);
            if ws.len() >= 3 {
                ws[0] + " / "@ + ws[1] + " ("@ + ws[2] + ")"@
            } else {
                trim(l)
            }
        } else {
            "unknown"@
        },
        None => "unknown"@,
    }
}

pub fn disk_usage(out: Option<&str>) -> (r: String)
    ensures
        r@ == disk_usage_of(
            match out {
                Some(t) => Some(t@),
                None => None,
            },
        ),
{
    if let Some(t) = out {
        let cs = chars_of(t);
        let ls = lines_of(cs.as_slice());
        if ls.len() > 1 {
            let ws = words_of(ls[1].as_slice());
            if ws.len() >= 3 {
                let mut o: Vec<char> = Vec::new();
                push_all(&mut o, ws[0].as_slice());
                let s1 = chars_of(" / ");
                push_all(&mut o, s1.as_slice());
                push_all(&mut o, ws[1].as_slice());
                let s2 = chars_of(" (");
                push_all(&mut o, s2.as_slice());
                push_all(&mut o, ws[2].as_slice());
                o.push(')');
                proof {
                    reveal_strlit(")");
                }
                assert(o@ =~= ws@[0]@ + " / "@ + ws@[1]@ + " ("@ + ws@[2]@ + ")"@);
                return string_of(o.as_slice());
            } else {
                let tl = trim_chars(ls[1].as_slice());
                return string_of(tl.as_slice());
            }
        }
    }
    text("unknown")
}

/// A line of `ip -br addr` as shown: "iface: address" (the third word without
/// its prefix length), "iface: state" with two words, else the line trimmed.
pub open spec fn ip_line_of(l: Seq<char>) -> Seq<char> {
    let ws = words(l);
    if ws.len() >= 3 {
        ws[0] + ": "@ + match split_once(ws[2], '/') {
            Some((a, _)) => a,
            None => ws[2],
        }
    } else if ws.len() >= 2 {
        ws[0] + ": "@ + ws[1]
    } else {
        trim(l)
    }
}

/// Each line as [`ip_line_of`] shows it.
pub open spec fn ip_lines(ls: Seq<Seq<char>>) -> Seq<Seq<char>> {
    ls.map_values(|l: Seq<char>| ip_line_of(l))
}

/// The lines other than loopback's, in order.
pub open spec fn non_loopback(ls: Seq<Seq<char>>) -> Seq<Seq<char>>
    decreases ls.len(),
{
    if ls.len() == 0 {
        Seq::empty()
    } else if starts_with(ls.last(), "lo "@) {
        non_loopback(ls.drop_last())
    } else {
        non_loopback(ls.drop_last()).push(ls.last())
    }
}

/// The addresses from `ip -br addr` output: the first two interfaces other
/// than loopback, shown by [`ip_line_of`] and joined by two spaces;
/// "unavailable" without output.
pub open spec fn ip_addresses_of(out: Option<Seq<char>>) -> Seq<char> {
    match out {
        Some(t) => {
            let kept = non_loopback(lines(t));
            let shown = kept.take(if kept.len() < 2 { kept.len() as int } else { 2 });
            join(ip_lines(shown), "  "@)
        },
        None => "unavailable"@,
    }
}

fn ip_line(l: &[char]) -> (r: Vec<char>)
    ensures
        r@ == ip_line_of(l@),
{
    let ws = words_of(l);
    if ws.len() >= 3 {
        let mut o: Vec<char> = copy_range(ws[0].as_slice(), 0, ws[0].len());
        let sep = chars_of(": ");
        push_all(&mut o, sep.as_slice());
        match split_once_chars(ws[2].as_slice(), '/') {
            Some((a, _)) => push_all(&mut o, a.as_slice()),
            None => push_all(&mut o, ws[2].as_slice()),
        }
        assert(ws@[0]@ == words(l@)[0]);
        o
    } else if ws.len() >= 2 {
        let mut o: Vec<char> = copy_range(ws[0].as_slice(), 0, ws[0].len());
        let sep = chars_of(": ");
        push_all(&mut o, sep.as_slice());
        push_all(&mut o, ws[1].as_slice());
        o
    } else {
        trim_chars(l)
    }
}

pub fn ip_addresses(out: Option<&str>) -> (r: String)
    ensures
        r@ == ip_addresses_of(
            match out {
                Some(t) => Some(t@),
                None => None,
            },
        ),
{
    match out {
        None => text("unavailable"),
        Some(t) => {
            let cs = chars_of(t);
            let ls = lines_of(cs.as_slice());
            let lo = chars_of("lo ");
            let ghost all = views(ls@);
            let mut kept: Vec<Vec<char>> = Vec::new();
            let mut i: usize = 0;
            while i < ls.len()
                invariant
                    i <= ls@.len(),
                    all == views(ls@),
                    lo@ == "lo "@,
                    views(kept@) == non_loopback(all.take(i as int)),
                decreases ls.len() - i,
            {
                assert(all.take(i + 1).drop_last() =~= all.take(i as int));
                assert(all.take(i + 1).last() == ls@[i as int]@);
                if !starts_with_chars(ls[i].as_slice(), lo.as_slice()) {
                    let c = copy_range(ls[i].as_slice(), 0, ls[i].len());
                    assert(c@ =~= ls@[i as int]@);
                    let ghost k0 = kept@;
                    kept.push(c);
                    assert(views(kept@) =~= views(k0).push(c@));
                }
                i += 1;
            }
            assert(all.take(all.len() as int) =~= all);
            let n = if kept.len() < 2 { kept.len() } else { 2 };
            let mut shown: Vec<Vec<char>> = Vec::new();
            let mut j: usize = 0;
            while j < n
                invariant
                    j <= n,
                    n <= kept@.len(),
                    views(shown@) == ip_lines(views(kept@).take(j as int)),
                decreases n - j,
            {
                let s = ip_line(kept[j].as_slice());
                let ghost s0 = shown@;
                shown.push(s);
                proof {
                    crate::text::lemma_views_push(s0, s);
                    assert(views(kept@)[j as int] == kept@[j as int]@);
                    assert(ip_lines(views(kept@).take(j + 1)) =~= ip_lines(
                        views(kept@).take(j as int),
                    ).push(ip_line_of(kept@[j as int]@)));
                }
                j += 1;
            }
            let sep = chars_of("  ");
            let joined = join_chars(&shown, sep.as_slice());
            string_of(joined.as_slice())
        },
    }
}

/// A `bluetoothctl paired-devices` line's device name: what follows its
/// second space, when it has two.
pub open spec fn paired_name(l: Seq<char>) -> Option<Seq<char>> {
    match split_once(l, ' ') {
        Some((_, rest)) => after(rest, ' '),
        None => None,
    }
}

/// The device names of the lines that have one, in order.
pub open spec fn paired_names(ls: Seq<Seq<char>>) -> Seq<Seq<char>>
    decreases ls.len(),
{
    if ls.len() == 0 {
        Seq::empty()
    } else {
        let rest = paired_names(ls.drop_last());
        match paired_name(ls.last()) {
            Some(n) => rest.push(n),
            None => rest,
        }
    }
}

/// The paired Bluetooth devices from `bluetoothctl paired-devices` output;
/// none without output.
pub fn paired_devices(out: Option<&str>) -> (r: Vec<String>)
    ensures
        r@.map_values(|s: String| s@) == match out {
            Some(t) => paired_names(lines(t@)),
            None => Seq::empty(),
        },
{
    let mut r: Vec<String> = Vec::new();
    match out {
        None => {
            assert(r@.map_values(|s: String| s@) =~= Seq::<Seq<char>>::empty());
            r
        },
        Some(t) => {
            let cs = chars_of(t);
            let ls = lines_of(cs.as_slice());
            let ghost all = views(ls@);
            let mut i: usize = 0;
            while i < ls.len()
                invariant
                    i <= ls@.len(),
                    all == views(ls@),
                    all == lines(t@),
                    r@.map_values(|s: String| s@) == paired_names(all.take(i as int)),
                decreases ls.len() - i,
            {
                assert(all.take(i + 1).drop_last() =~= all.take(i as int));
                assert(all.take(i + 1).last() == ls@[i as int]@);
                if let Some((_, rest)) = split_once_chars(ls[i].as_slice(), ' ') {
                    if let Some(name) = after_chars(rest.as_slice(), ' ') {
                        let ghost r0 = r@;
                        r.push(string_of(name.as_slice()));
                        assert(r@.map_values(|s: String| s@) =~= r0.map_values(|s: String| s@).push(
                            name@,
                        ));
                    }
                }
                i += 1;
            }
            assert(all.take(all.len() as int) =~= all);
            r
        },
    }
}

/// A command's output trimmed, or `fallback` without output (or, when
/// `drop_empty`, when it trims to nothing).
pub open spec fn trimmed_or_of(out: Option<Seq<char>>, fallback: Seq<char>, drop_empty: bool) -> Seq<
    char,
> {
    match out {
        Some(t) => if drop_empty && trim(t).len() == 0 {
            fallback
        } else {
            trim(t)
        },
        None => fallback,
    }
}

/// Used for the kernel version (`uname -r`, "unknown"), the NixOS version
/// (`nixos-version`, "unknown" also when empty), the compositor's version
/// (`niri --version`, "niri" also when empty) and the hostname
/// (`/etc/hostname`, "nixos").
pub fn trimmed_or(out: Option<&str>, fallback: &str, drop_empty: bool) -> (r: String)
    ensures
        r@ == trimmed_or_of(
            match out {
                Some(t) => Some(t@),
                None => None,
            },
            fallback@,
            drop_empty,
        ),
{
    match out {
        Some(t) => {
            let cs = chars_of(t);
            let tc = trim_chars(cs.as_slice());
            if drop_empty && tc.len() == 0 {
                text(fallback)
            } else {
                string_of(tc.as_slice())
            }
        },
        None => text(fallback),
    }
}

/// The text after the last `/` (all of it without one).
pub open spec fn last_segment(s: Seq<char>) -> Seq<char>
    decreases s.len(),
{
    if s.len() == 0 {
        s
    } else if s.last() == '/' {
        Seq::empty()
    } else {
        last_segment(s.drop_last()).push(s.last())
    }
}

/// The login shell's name from `$SHELL`: its last path segment; "unknown"
/// when unset.
pub fn shell_name(shell: Option<&str>) -> (r: String)
    ensures
        r@ == match shell {
            Some(s) => last_segment(s@),
            None => "unknown"@,
        },
{
    match shell {
        None => text("unknown"),
        Some(s) => {
            let cs = chars_of(s);
            let mut start: usize = cs.len();
            assert(cs@.take(cs@.len() as int) =~= cs@);
            assert(cs@.skip(cs@.len() as int) =~= Seq::<char>::empty());
            assert(last_segment(cs@) + Seq::<char>::empty() =~= last_segment(cs@));
            while start > 0 && cs[start - 1] != '/'
                invariant
                    start <= cs@.len(),
                    last_segment(cs@) == last_segment(cs@.take(start as int)) + cs@.skip(
                        start as int,
                    ),
                decreases start,
            {
                assert(cs@.take(start as int).drop_last() =~= cs@.take(start - 1));
                assert(cs@.skip(start - 1) =~= seq![cs@[start - 1]] + cs@.skip(start as int));
                assert(last_segment(cs@.take(start as int)) =~= last_segment(cs@.take(start - 1)).push(
                    cs@[start - 1],
                ));
                start -= 1;
            }
            assert(cs@.take(cs@.len() as int) =~= cs@);
            assert(cs@.skip(cs@.len() as int) =~= Seq::<char>::empty());
            let v = copy_range(cs.as_slice(), start, cs.len());
            assert(v@ =~= cs@.skip(start as int));
            assert(last_segment(cs@.take(start as int)) =~= Seq::<char>::empty()) by {
                if start > 0 {
                    assert(cs@.take(start as int).last() == '/');
                }
            }
            string_of(v.as_slice())
        },
    }
}

/// Uptime as shown: "Dd Hh Mm" from a day, "Hh Mm" from an hour, else "Mm".
pub open spec fn uptime_text(secs: nat) -> Seq<char> {
    let d = secs / 86400;
    let h = (secs % 86400) / 3600;
    let m = (secs % 3600) / 60;
    if d > 0 {
        decimal(d) + "d "@ + decimal(h) + "h "@ + decimal(m) + "m"@
    } else if h > 0 {
        decimal(h) + "h "@ + decimal(m) + "m"@
    } else {
        decimal(m) + "m"@
    }
}

pub fn format_uptime(secs: u64) -> (r: String)
    ensures
        r@ == uptime_text(secs as nat),
{
    let d = secs / 86400;
    let h = (secs % 86400) / 3600;
    let m = (secs % 3600) / 60;
    let dd = decimal_of(d);
    let hh = decimal_of(h);
    let mm = decimal_of(m);
    let dsep = chars_of("d ");
    let hsep = chars_of("h ");
    let msuf = chars_of("m");
    let mut o: Vec<char> = Vec::new();
    if d > 0 {
        push_all(&mut o, dd.as_slice());
        push_all(&mut o, dsep.as_slice());
        push_all(&mut o, hh.as_slice());
        push_all(&mut o, hsep.as_slice());
        push_all(&mut o, mm.as_slice());
        push_all(&mut o, msuf.as_slice());
        assert(o@ =~= decimal(d as nat) + "d "@ + decimal(h as nat) + "h "@ + decimal(m as nat)
            + "m"@);
    } else if h > 0 {
        push_all(&mut o, hh.as_slice());
        push_all(&mut o, hsep.as_slice());
        push_all(&mut o, mm.as_slice());
        push_all(&mut o, msuf.as_slice());
        assert(o@ =~= decimal(h as nat) + "h "@ + decimal(m as nat) + "m"@);
    } else {
        push_all(&mut o, mm.as_slice());
        push_all(&mut o, msuf.as_slice());
        assert(o@ =~= decimal(m as nat) + "m"@);
    }
    string_of(o.as_slice())
}

/// The kB value of the first `/proc/meminfo` line starting with `key`: its
/// second word as a number; 0 without it.
pub open spec fn meminfo_kb_of(meminfo: Seq<char>, key: Seq<char>) -> nat {
    match first_line(lines(meminfo), starts_pred(key)) {
        Some(l) => if words(l).len() >= 2 {
            match parse_unsigned(words(l)[1], u64::MAX as nat) {
                Some(v) => v,
                None => 0,
            }
        } else {
            0
        },
        None => 0,
    }
}

pub fn meminfo_kb(meminfo: &str, key: &str) -> (r: u64)
    ensures
        r == meminfo_kb_of(meminfo@, key@),
{
    let cs = chars_of(meminfo);
    let ls = lines_of(cs.as_slice());
    let kc = chars_of(key);
    let k = find_starting(&ls, kc.as_slice());
    if k < ls.len() {
        let ws = words_of(ls[k].as_slice());
        if ws.len() >= 2 {
            match parse_u64(ws[1].as_slice()) {
                Some(v) => v,
                None => 0,
            }
        } else {
            0
        }
    } else {
        0
    }
}

/// Whether `wpctl get-volume` output says the output is muted.
pub fn is_muted(out: Option<&str>) -> (b: bool)
    ensures
        b == match out {
            Some(t) => contains(t@, "[MUTED]"@),
            None => false,
        },
{
    match out {
        Some(t) => {
            let cs = chars_of(t);
            let key = chars_of("[MUTED]");
            contains_chars(cs.as_slice(), key.as_slice())
        },
        None => false,
    }
}

/// The battery line from the capacity and status files of each battery, in
/// order: the first whose capacity reads as a number gives "N% — status"
/// (status trimmed, "Unknown" when unreadable); "No battery" without one.
pub open spec fn battery_text_of(readings: Seq<(Option<Seq<char>>, Option<Seq<char>>)>) -> Seq<
    char,
>
    decreases readings.len(),
{
    if readings.len() == 0 {
        "No battery"@
    } else {
        let (cap, status) = readings[0];
        let pct = match cap {
            Some(c) => parse_unsigned(trim(c), u32::MAX as nat),
            None => None,
        };
        match pct {
            Some(p) => decimal(p) + "% — "@ + match status {
                Some(s) => trim(s),
                None => "Unknown"@,
            },
            None => battery_text_of(readings.skip(1)),
        }
    }
}

pub open spec fn reading_views(r: Seq<(Option<String>, Option<String>)>) -> Seq<
    (Option<Seq<char>>, Option<Seq<char>>),
> {
    r.map_values(
        |x: (Option<String>, Option<String>)|
            (
                match x.0 {
                    Some(s) => Some(s@),
                    None => None,
                },
                match x.1 {
                    Some(s) => Some(s@),
                    None => None,
                },
            ),
    )
}

pub fn battery_text(readings: &Vec<(Option<String>, Option<String>)>) -> (r: String)
    ensures
        r@ == battery_text_of(reading_views(readings@)),
{
    let ghost all = reading_views(readings@);
    let mut i: usize = 0;
    assert(all.skip(0) =~= all);
    while i < readings.len()
        invariant
            i <= readings@.len(),
            all == reading_views(readings@),
            battery_text_of(all) == battery_text_of(all.skip(i as int)),
        decreases readings.len() - i,
    {
        assert(all.skip(i as int)[0] == all[i as int]);
        let pct = match &readings[i].0 {
            Some(c) => {
                let cc = chars_of(c.as_str());
                let tc = trim_chars(cc.as_slice());
                parse_u32(tc.as_slice())
            },
            None => None,
        };
        if let Some(p) = pct {
            let mut o = decimal_of(p as u64);
            let sep = chars_of("% — ");
            push_all(&mut o, sep.as_slice());
            match &readings[i].1 {
                Some(s) => {
                    let sc = chars_of(s.as_str());
                    let ts = trim_chars(sc.as_slice());
                    push_all(&mut o, ts.as_slice());
                },
                None => {
                    let u = chars_of("Unknown");
                    push_all(&mut o, u.as_slice());
                },
            }
            return string_of(o.as_slice());
        }
        assert(all.skip(i as int).skip(1) =~= all.skip(i + 1));
        i += 1;
    }
    text("No battery")
}

// ───────────────────────── backlight ─────────────────────────

/// The field `n` (from 0) of `s` split at `c` (`str::split(c).nth(n)`).
pub open spec fn nth_field(s: Seq<char>, c: char, n: nat) -> Option<Seq<char>>
    decreases n,
{
    match split_once(s, c) {
        None => if n == 0 {
            Some(s)
        } else {
            None
        },
        Some((a, b)) => if n == 0 {
            Some(a)
        } else {
            nth_field(b, c, (n - 1) as nat)
        },
    }
}

fn nth_field_of(s: &[char], c: char, n: usize) -> (r: Option<Vec<char>>)
    ensures
        match r {
            Some(f) => nth_field(s@, c, n as nat) == Some(f@),
            None => nth_field(s@, c, n as nat) is None,
        },
    decreases n,
{
    match split_once_chars(s, c) {
        None => {
            if n == 0 {
                let all = copy_range(s, 0, s.len());
                assert(all@ =~= s@);
                Some(all)
            } else {
                None
            }
        },
        Some((a, b)) => {
            if n == 0 {
                Some(a)
            } else {
                nth_field_of(b.as_slice(), c, n - 1)
            }
        },
    }
}

/// The backlight level that `brightnessctl info -m` prints: its comma-separated
/// field 3, without trailing `%`s and surrounding white space, as a whole
/// number.
pub open spec fn brightness_percent_of(out: Seq<char>) -> Option<nat> {
    match nth_field(out, ',', 3) {
        Some(f) => parse_unsigned(trim(trim_end_char(f, '%')), u32::MAX as nat),
        None => None,
    }
}

/// Reads the backlight level from the output of `brightnessctl info -m`.
pub fn brightness_percent(out: &str) -> (r: Option<u32>)
    ensures
        match r {
            Some(v) => brightness_percent_of(out@) == Some(v as nat),
            None => brightness_percent_of(out@) is None,
        },
{
    let cs = chars_of(out);
    match nth_field_of(cs.as_slice(), ',', 3) {
        Some(f) => {
            let t = trim_end_char_chars(f.as_slice(), '%');
            let u = trim_chars(t.as_slice());
            parse_u32(u.as_slice())
        },
        None => None,
    }
}

} // verus!

use vstd::prelude::*;
use vstd::string::StringExecFns;
use crate::text::{
    chars_of, contains, contains_chars, lines, lines_of, split_once, split_once_chars, starts_with,
    starts_with_chars, string_of, trim, trim_chars, trim_start, trim_start_chars, views, copy_range,
};

verus! {

#[derive(Debug, Clone, PartialEq)]
pub enum BluetoothStatus {
    Off,
    OnNoDevice,
    Connected { device_name: String },
}

#[derive(Debug, Clone)]
pub struct BluetoothState {
    pub status: BluetoothStatus,
}

impl Default for BluetoothState {
    /// Bluetooth off.
    fn default() -> (s: Self)
        ensures
            s.status is Off,
    {
        BluetoothState { status: BluetoothStatus::Off }
    }
}

/// The first line whose trimmed start begins with `Name:`.
pub open spec fn name_line(ls: Seq<Seq<char>>) -> Option<Seq<char>>
    decreases ls.len(),
{
    if ls.len() == 0 {
        None
    } else if starts_with(trim_start(ls[0]), "Name:"@) {
        Some(ls[0])
    } else {
        name_line(ls.drop_first())
    }
}

/// The device name that `bluetoothctl info` prints: the trimmed text after the
/// first `:` of its `Name:` line, or `device`.
pub open spec fn device_name(info: Seq<char>) -> Seq<char> {
    match name_line(lines(info)) {
        Some(l) => match split_once(l, ':') {
            Some((_, rest)) => trim(rest),
            None => "device"@,
        },
        None => "device"@,
    }
}

/// The connected device's name when `info` reports a connection.
pub open spec fn connected_device(info: Option<Seq<char>>) -> Option<Seq<char>> {
    match info {
        Some(t) => if contains(t, "Connected: yes"@) {
            Some(device_name(t))
        } else {
            None
        },
        None => None,
    }
}

pub fn device_name_of(info: &[char]) -> (n: Vec<char>)
    ensures
        n@ == device_name(info@),
{
    let ls = lines_of(info);
    let key = chars_of("Name:");
    let mut i: usize = 0;
    assert(views(ls@).skip(0) =~= views(ls@));
    while i < ls.len()
        invariant
            i <= ls@.len(),
            key@ == "Name:"@,
            views(ls@) == lines(info@),
            name_line(views(ls@)) == name_line(views(ls@).skip(i as int)),
        decreases ls.len() - i,
    {
        let t = trim_start_chars(ls[i].as_slice());
        assert(views(ls@).skip(i as int)[0] == ls@[i as int]@);
        if starts_with_chars(t.as_slice(), key.as_slice()) {
            return match split_once_chars(ls[i].as_slice(), ':') {
                Some((_, rest)) => trim_chars(rest.as_slice()),
                None => chars_of("device"),
            };
        }
        assert(views(ls@).skip(i as int).drop_first() =~= views(ls@).skip(i + 1));
        i += 1;
    }
    assert(views(ls@).skip(i as int) =~= Seq::<Seq<char>>::empty());
    chars_of("device")
}

/// The bar's Bluetooth state from `bluetoothctl show` (its output when the
/// command succeeded) and `bluetoothctl info` (its output when it ran):
/// off unless powered, then connected to the named device or on with none.
pub fn bluetooth_state(show_output: Option<&str>, info_output: Option<&str>) -> (s: BluetoothState)
    ensures
        match show_output {
            Some(t) if contains(t@, "Powered: yes"@) => match connected_device(
                match info_output {
                    Some(i) => Some(i@),
                    None => None,
                },
            ) {
                Some(n) => s.status matches BluetoothStatus::Connected { device_name } && device_name@
                    == n,
                None => s.status is OnNoDevice,
            },
            _ => s.status is Off,
        },
{
    let powered = match show_output {
        Some(t) => {
            let tc = chars_of(t);
            let key = chars_of("Powered: yes");
            contains_chars(tc.as_slice(), key.as_slice())
        },
        None => false,
    };
    if !powered {
        return BluetoothState { status: BluetoothStatus::Off };
    }
    if let Some(text) = info_output {
        let tc = chars_of(text);
        let key = chars_of("Connected: yes");
        if contains_chars(tc.as_slice(), key.as_slice()) {
            let name = device_name_of(tc.as_slice());
            return BluetoothState {
                status: BluetoothStatus::Connected { device_name: string_of(name.as_slice()) },
            };
        }
    }
    BluetoothState { status: BluetoothStatus::OnNoDevice }
}

// ───────────────────────── the bar's short name ─────────────────────────

/// How many bytes `c` takes in UTF-8.
pub open spec fn utf8_len(c: char) -> nat {
    if (c as u32) < 0x80 {
        1
    } else if (c as u32) < 0x800 {
        2
    } else if (c as u32) < 0x10000 {
        3
    } else {
        4
    }
}

/// How many bytes `s` takes in UTF-8.
pub open spec fn encoded_len(s: Seq<char>) -> nat
    decreases s.len(),
{
    if s.len() == 0 {
        0
    } else {
        encoded_len(s.drop_last()) + utf8_len(s.last())
    }
}

/// Byte `n` of `s` in UTF-8 falls between two characters (or `s` is no
/// longer than that), so `s` can be cut there.
pub open spec fn cuts_at(s: Seq<char>, n: nat) -> bool {
    encoded_len(s) <= n || exists|k: int| 0 <= k <= s.len() && #[trigger] encoded_len(s.take(k)) == n
}

proof fn lemma_encoded_len_step(s: Seq<char>, k: int)
    requires
        0 <= k < s.len(),
    ensures
        encoded_len(s.take(k + 1)) == encoded_len(s.take(k)) + utf8_len(s[k]),
{
    assert(s.take(k + 1).drop_last() =~= s.take(k));
}

proof fn lemma_encoded_len_grows(s: Seq<char>, j: int, k: int)
    requires
        0 <= j < k <= s.len(),
    ensures
        encoded_len(s.take(j)) < encoded_len(s.take(k)),
    decreases k - j,
{
    lemma_encoded_len_step(s, k - 1);
    if j < k - 1 {
        lemma_encoded_len_grows(s, j, k - 1);
    }
}

fn utf8_len_of(c: char) -> (n: u32)
    ensures
        n == utf8_len(c),
{
    let cp = c as u32;
    if cp < 0x80 {
        1
    } else if cp < 0x800 {
        2
    } else if cp < 0x10000 {
        3
    } else {
        4
    }
}

/// The connected device's name as the bar shows it: its first six bytes
/// (`&name[..6]`), all of it when it is no longer. The cut must fall between
/// two characters.
pub fn short_device_name(name: &str) -> (r: String)
    requires
        cuts_at(name@, 6),
    ensures
        if encoded_len(name@) <= 6 {
            r@ == name@
        } else {
            r@ == name@.take(r@.len() as int) && encoded_len(r@) == 6
        },
{
    let v = chars_of(name);
    let mut i: usize = 0;
    let mut acc: u32 = 0;
    assert(v@.take(0) =~= Seq::<char>::empty());
    while i < v.len() && acc + utf8_len_of(v[i]) <= 6
        invariant
            i <= v@.len(),
            v@ == name@,
            acc == encoded_len(v@.take(i as int)),
            acc <= 6,
        decreases v.len() - i,
    {
        proof {
            lemma_encoded_len_step(v@, i as int);
        }
        acc = acc + utf8_len_of(v[i]);
        i += 1;
    }
    if i == v.len() {
        assert(v@.take(i as int) =~= v@);
        return string_of(v.as_slice());
    }
    proof {
        lemma_encoded_len_step(v@, i as int);
        assert(v@.take(v@.len() as int) =~= v@);
        if encoded_len(name@) > 6 {
            let k = choose|k: int| 0 <= k <= v@.len() && #[trigger] encoded_len(v@.take(k)) == 6;
            if k < i as int {
                lemma_encoded_len_grows(v@, k, i as int);
            } else if k > i as int {
                if k > i + 1 {
                    lemma_encoded_len_grows(v@, i + 1, k);
                }
            }
            assert(acc == 6);
        } else {
            if i + 1 < v@.len() {
                lemma_encoded_len_grows(v@, i + 1, v@.len() as int);
            }
        }
    }
    let head = copy_range(v.as_slice(), 0, i);
    assert(head@ =~= v@.take(i as int));
    let r = string_of(head.as_slice());
    assert(r@ == name@.take(r@.len() as int));
    r
}

} // verus!

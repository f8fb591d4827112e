use vstd::prelude::*;
use vstd::string::StringExecFns;
use crate::config::string_views;
use crate::text::{
    chars_of, copy_range, find_char, index_of, lemma_index_of, lemma_index_of_at, push_all, remove_all,
    remove_all_chars, same_chars, string_of,
};

verus! {

/// An item of the system tray (StatusNotifierItem).
#[derive(Debug, Clone)]
pub struct TrayItem {
    pub id: String,
    pub title: String,
    pub icon_name: String,
    /// pre-decoded RGBA pixels if pixmap provided
    pub icon_rgba: Option<Vec<u8>>,
    /// side length when icon_rgba is Some
    pub icon_size: u32,
    /// D-Bus object path for com.canonical.dbusmenu
    pub menu_path: String,
    /// D-Bus bus name
    pub service: String,
}

/// An entry of a tray item's context menu.
#[derive(Debug, Clone)]
pub struct MenuItem {
    pub id: i32,
    pub label: String,
    pub enabled: bool,
    pub is_separator: bool,
}

/// ARGB32 pixels (network byte order) as RGBA8: every whole group of four
/// bytes `a r g b` becomes `r g b a`; a short tail is dropped.
pub open spec fn argb_as_rgba(d: Seq<u8>) -> Seq<u8> {
    Seq::new(
        ((d.len() / 4) * 4) as nat,
        |i: int|
            {
                let base = (i / 4) * 4;
                let c = i % 4;
                if c == 3 {
                    d[base]
                } else {
                    d[base + c + 1]
                }
            },
    )
}

/// Converts ARGB32 (network byte order) to RGBA8.
pub fn argb_to_rgba(data: &[u8]) -> (out: Vec<u8>)
    ensures
        out@ == argb_as_rgba(data@),
{
    let mut out: Vec<u8> = Vec::new();
    let mut k: usize = 0;
    let len = data.len();
    let n = len / 4;
    while k < n
        invariant
            len == data@.len(),
            n == data@.len() / 4,
            k <= n,
            out@.len() == 4 * k,
            forall|i: int| 0 <= i < 4 * k ==> out@[i] == argb_as_rgba(data@)[i],
        decreases n - k,
    {
        assert(4 * k + 3 < data@.len()) by (nonlinear_arith)
            requires
                k < n,
                n == data@.len() / 4,
        ;
        let base: usize = k * 4;
        let a = data[base];
        let r = data[base + 1];
        let g = data[base + 2];
        let b = data[base + 3];
        out.push(r);
        out.push(g);
        out.push(b);
        out.push(a);
        proof {
            assert forall|i: int| 4 * k <= i < 4 * k + 4 implies out@[i] == argb_as_rgba(
                data@,
            )[i] by {
                assert((i / 4) == k);
            }
        }
        k += 1;
    }
    assert(out@ =~= argb_as_rgba(data@));
    out
}

/// The name a tray item is registered under: an object path is prefixed with
/// the sender's bus name, anything else is a service name taken as it is.
pub open spec fn registered_name(sender: Seq<char>, service_or_path: Seq<char>) -> Seq<char> {
    if service_or_path.len() > 0 && service_or_path[0] == '/' {
        sender + service_or_path
    } else {
        service_or_path
    }
}

/// Registers a tray item with the watcher: its name is added unless it is
/// already known.
pub fn register_item(items: &mut Vec<String>, sender: &str, service_or_path: &str)
    ensures
        ({
            let full = registered_name(sender@, service_or_path@);
            if string_views(old(items)@).contains(full) {
                final(items)@ == old(items)@
            } else {
                string_views(final(items)@) == string_views(old(items)@).push(full)
            }
        }),
        string_views(final(items)@) == after_register(
            string_views(old(items)@),
            registered_name(sender@, service_or_path@),
        ),
{
    let sp = chars_of(service_or_path);
    let full: Vec<char> = if sp.len() > 0 && sp[0] == '/' {
        let mut f = chars_of(sender);
        push_all(&mut f, sp.as_slice());
        f
    } else {
        sp
    };
    let mut i: usize = 0;
    while i < items.len()
        invariant
            i <= items@.len(),
            full@ == registered_name(sender@, service_or_path@),
            forall|j: int| 0 <= j < i ==> items@[j]@ != full@,
        decreases items.len() - i,
    {
        let have = chars_of(items[i].as_str());
        if same_chars(have.as_slice(), full.as_slice()) {
            assert(string_views(items@)[i as int] == full@);
            return;
        }
        i += 1;
    }
    assert(!string_views(items@).contains(full@));
    let ghost pre = items@;
    items.push(string_of(full.as_slice()));
    assert(string_views(items@) =~= string_views(pre).push(full@));
}

/// A registered name as bus name and object path: split at its first `/`,
/// or the whole name with the default path `/StatusNotifierItem`.
pub open spec fn item_address(raw: Seq<char>) -> (Seq<char>, Seq<char>) {
    let k = index_of(raw, '/');
    if k < raw.len() {
        (raw.take(k), raw.skip(k))
    } else {
        (raw, "/StatusNotifierItem"@)
    }
}

pub fn split_item_address(raw: &str) -> (r: (String, String))
    ensures
        (r.0@, r.1@) == item_address(raw@),
{
    let cs = chars_of(raw);
    let k = find_char(cs.as_slice(), 0, '/');
    proof {
        assert(cs@.subrange(0, cs@.len() as int) =~= cs@);
        lemma_index_of(cs@, '/');
    }
    if k < cs.len() {
        let a = copy_range(cs.as_slice(), 0, k);
        let b = copy_range(cs.as_slice(), k, cs.len());
        assert(a@ =~= raw@.take(k as int));
        assert(b@ =~= raw@.skip(k as int));
        (string_of(a.as_slice()), string_of(b.as_slice()))
    } else {
        (String::from_str(raw), String::from_str("/StatusNotifierItem"))
    }
}

/// A child of a DBusMenu layout as the popup shows it, from its `label`,
/// `enabled`, `type` and `visible` properties (each `None` when absent or not
/// of the expected type): hidden items are dropped, mnemonic underscores
/// removed, `enabled` defaults to true, and a `separator` type marks a
/// separator.
pub fn menu_item(
    id: i32,
    label: Option<&str>,
    enabled: Option<bool>,
    kind: Option<&str>,
    visible: Option<bool>,
) -> (r: Option<MenuItem>)
    ensures
        visible == Some(false) <==> r is None,
        r matches Some(m) ==> {
            &&& m.id == id
            &&& m.label@ == remove_all(
                match label {
                    Some(l) => l@,
                    None => Seq::<char>::empty(),
                },
                "_"@,
            )
            &&& m.enabled == match enabled {
                Some(e) => e,
                None => true,
            }
            &&& m.is_separator == match kind {
                Some(k) => k@ == "separator"@,
                None => false,
            }
        },
{
    proof {
        reveal_strlit("_");
    }
    if visible == Some(false) {
        return None;
    }
    let raw = match label {
        Some(l) => chars_of(l),
        None => Vec::new(),
    };
    let us = chars_of("_");
    let cleaned = remove_all_chars(raw.as_slice(), us.as_slice());
    let is_separator = match kind {
        Some(k) => {
            let kc = chars_of(k);
            let sep = chars_of("separator");
            same_chars(kc.as_slice(), sep.as_slice())
        },
        None => false,
    };
    Some(
        MenuItem {
            id,
            label: string_of(cleaned.as_slice()),
            enabled: match enabled {
                Some(e) => e,
                None => true,
            },
            is_separator,
        },
    )
}

/// The area of a pixmap.
pub open spec fn pixmap_area(p: (i32, i32)) -> int {
    p.0 * p.1
}

/// Index of the largest pixmap (by width × height), the last of equals.
pub open spec fn largest_index(dims: Seq<(i32, i32)>) -> int
    decreases dims.len(),
{
    if dims.len() <= 1 {
        0
    } else {
        let b = largest_index(dims.drop_last());
        if pixmap_area(dims.last()) >= pixmap_area(dims[b]) {
            dims.len() - 1
        } else {
            b
        }
    }
}

/// The largest pixmap is one of them and none is larger.
pub proof fn lemma_largest_index(dims: Seq<(i32, i32)>)
    requires
        dims.len() > 0,
    ensures
        0 <= largest_index(dims) < dims.len(),
        forall|j: int| 0 <= j < dims.len() ==> pixmap_area(#[trigger] dims[j]) <= pixmap_area(
            dims[largest_index(dims)],
        ),
    decreases dims.len(),
{
    if dims.len() > 1 {
        lemma_largest_index(dims.drop_last());
        let b = largest_index(dims.drop_last());
        assert forall|j: int| 0 <= j < dims.len() implies pixmap_area(#[trigger] dims[j]) <= pixmap_area(
            dims[largest_index(dims)],
        ) by {
            if j < dims.len() - 1 {
                assert(dims[j] == dims.drop_last()[j]);
            }
        }
    }
}

/// The tray icon of an item from its `IconPixmap` property (`(width, height,
/// ARGB32 data)` triples): the largest pixmap converted to RGBA with its width
/// as side length, or no pixmap and size 0 when there is none.
pub fn tray_icon(pixmaps: &Vec<(i32, i32, Vec<u8>)>) -> (r: (Option<Vec<u8>>, u32))
    requires
        forall|i: int|
            0 <= i < pixmaps@.len() ==> i32::MIN <= #[trigger] pixmaps@[i].0 * pixmaps@[i].1
                <= i32::MAX,
    ensures
        ({
            let dims = pixmaps@.map_values(|p: (i32, i32, Vec<u8>)| (p.0, p.1));
            if pixmaps@.len() == 0 {
                r.0 is None && r.1 == 0
            } else {
                let b = pixmaps@[largest_index(dims)];
                r.0 matches Some(v) && v@ == argb_as_rgba(b.2@) && r.1 == b.0 as u32
            }
        }),
{
    let ghost dims = pixmaps@.map_values(|p: (i32, i32, Vec<u8>)| (p.0, p.1));
    if pixmaps.len() == 0 {
        return (None, 0);
    }
    let mut best: usize = 0;
    let mut best_area: i32 = pixmaps[0].0 * pixmaps[0].1;
    let mut i: usize = 1;
    assert(dims.take(1).len() == 1);
    while i < pixmaps.len()
        invariant
            1 <= i <= pixmaps@.len(),
            dims == pixmaps@.map_values(|p: (i32, i32, Vec<u8>)| (p.0, p.1)),
            forall|k: int|
                0 <= k < pixmaps@.len() ==> i32::MIN <= #[trigger] pixmaps@[k].0 * pixmaps@[k].1
                    <= i32::MAX,
            best == largest_index(dims.take(i as int)),
            best < i,
            best_area == pixmaps@[best as int].0 * pixmaps@[best as int].1,
        decreases pixmaps.len() - i,
    {
        assert(dims.take(i + 1).drop_last() =~= dims.take(i as int));
        assert(dims.take(i + 1)[best as int] == dims[best as int]);
        let area = pixmaps[i].0 * pixmaps[i].1;
        if area >= best_area {
            best = i;
            best_area = area;
        }
        i += 1;
    }
    assert(dims.take(i as int) =~= dims);
    let (w, _h, data) = &pixmaps[best];
    (Some(argb_to_rgba(data.as_slice())), *w as u32)
}

/// The item list after registering `name`: unchanged when it is known,
/// else with `name` added at the end.
pub open spec fn after_register(items: Seq<Seq<char>>, name: Seq<char>) -> Seq<Seq<char>> {
    if items.contains(name) {
        items
    } else {
        items.push(name)
    }
}

/// Registering an item again changes nothing: the watcher lists each item
/// once.
pub proof fn lemma_register_idempotent(items: Seq<Seq<char>>, name: Seq<char>)
    ensures
        after_register(after_register(items, name), name) == after_register(items, name),
        after_register(items, name).contains(name),
{
    if !items.contains(name) {
        assert(items.push(name)[items.len() as int] == name);
    }
}


/// A registration by object path keeps the sender: the name recorded is the
/// sender's bus name followed by the path, so that splitting it gives the bus
/// name and the path back, and two senders registering the same path are two
/// items.
pub proof fn lemma_path_registration_keeps_sender(
    items: Seq<Seq<char>>,
    sender: Seq<char>,
    other: Seq<char>,
    path: Seq<char>,
)
    requires
        sender.len() > 0,
        forall|i: int| 0 <= i < sender.len() ==> sender[i] != '/',
        forall|i: int| 0 <= i < other.len() ==> other[i] != '/',
        other != sender,
        path.len() > 0,
        path[0] == '/',
    ensures
        registered_name(sender, path) == sender + path,
        item_address(registered_name(sender, path)) == (sender, path),
        registered_name(sender, path) != registered_name(other, path),
        after_register(after_register(items, registered_name(sender, path)), registered_name(other, path)).contains(registered_name(sender, path)),
        after_register(after_register(items, registered_name(sender, path)), registered_name(other, path)).contains(registered_name(other, path)),
{
    let full = sender + path;
    assert(full[sender.len() as int] == '/');
    assert forall|j: int| 0 <= j < sender.len() implies full[j] != '/' by {
        assert(full[j] == sender[j]);
    }
    lemma_index_of_at(full, '/', sender.len() as int);
    assert(full.take(sender.len() as int) =~= sender);
    assert(full.skip(sender.len() as int) =~= path);
    let ofull = other + path;
    if full == ofull {
        assert(ofull[other.len() as int] == '/');
        if other.len() < sender.len() {
            assert(full[other.len() as int] == sender[other.len() as int]);
        } else if other.len() > sender.len() {
            assert(ofull[sender.len() as int] == other[sender.len() as int]);
        } else {
            assert(sender =~= other) by {
                assert forall|j: int| 0 <= j < sender.len() implies sender[j] == other[j] by {
                    assert(full[j] == sender[j] && ofull[j] == other[j]);
                }
            }
        }
    }
    lemma_register_idempotent(items, full);
    let once = after_register(items, full);
    lemma_register_idempotent(once, ofull);
    if !once.contains(ofull) {
        let j = choose|j: int| 0 <= j < once.len() && once[j] == full;
        assert(once.push(ofull)[j] == full);
    }
}

} // verus!

use vstd::prelude::*;
use crate::text::{
    ascii_lowercase, ascii_lowercase_chars, chars_of, contains, contains_chars, decimal,
    decimal_of, lines, lines_of, push_all, same_chars, starts_with, starts_with_chars, string_of,
    trim, trim_chars, views,
};

verus! {

// ───────────────────────── glyph fallback ─────────────────────────

/// The Nerd Font glyphs for app families: the parts of an app id (in lower
/// case) that give the family away, and its glyph.
pub open spec fn app_glyphs() -> Seq<(Seq<Seq<char>>, Seq<char>)> {
    seq![
        (seq!["firefox"@, "librewolf"@], "\u{f269}"@),
        (seq!["chromium"@, "chrome"@, "brave"@], "\u{f268}"@),
        (seq!["foot"@, "alacritty"@, "kitty"@, "wezterm"@, "urxvt"@, "xterm"@], "\u{f120}"@),
        (seq!["nvim"@, "neovim"@], "\u{e62b}"@),
        (seq!["vim"@], "\u{e62b}"@),
        (seq!["emacs"@], "\u{e632}"@),
        (seq!["code"@, "vscode"@], "\u{e70c}"@),
        (seq!["discord"@, "vesktop"@], "\u{f392}"@),
        (seq!["telegram"@, "tdesktop"@], "\u{f2c6}"@),
        (seq!["slack"@], "\u{f198}"@),
        (seq!["spotify"@], "\u{f1bc}"@),
        (seq!["mpv"@, "vlc"@], "\u{f03d}"@),
        (seq!["thunar"@, "nautilus"@, "dolphin"@, "nemo"@], "\u{f07b}"@),
        (seq!["obsidian"@], "\u{f1d8}"@),
        (seq!["steam"@], "\u{f1b6}"@),
        (seq!["ubisoft"@, "uplay"@, "uconnect"@], "\u{f11b}"@),
    ]
}

/// Whether `s` contains one of `parts`.
pub open spec fn contains_any(s: Seq<char>, parts: Seq<Seq<char>>) -> bool {
    exists|j: int| 0 <= j < parts.len() && #[trigger] contains(s, parts[j])
}

/// The glyph of the first family (from entry `k` on) that `s` belongs to,
/// else the generic window glyph.
pub open spec fn glyph_from(s: Seq<char>, k: int) -> Seq<char>
    decreases app_glyphs().len() - k,
{
    if k < 0 || k >= app_glyphs().len() {
        "\u{f2d0}"@
    } else if contains_any(s, app_glyphs()[k].0) {
        app_glyphs()[k].1
    } else {
        glyph_from(s, k + 1)
    }
}

/// The glyph drawn for an app without an icon: by the first family whose
/// name its ASCII-lower-cased id contains.
pub open spec fn app_glyph(app_id: Seq<char>) -> Seq<char> {
    glyph_from(ascii_lowercase(app_id), 0)
}

fn any_part(s: &[char], parts: &[&str]) -> (b: bool)
    ensures
        b == exists|j: int| 0 <= j < parts@.len() && #[trigger] contains(s@, parts@[j]@),
{
    let mut j: usize = 0;
    while j < parts.len()
        invariant
            j <= parts@.len(),
            forall|q: int| 0 <= q < j ==> !#[trigger] contains(s@, parts@[q]@),
        decreases parts.len() - j,
    {
        let p = chars_of(parts[j]);
        if contains_chars(s, p.as_slice()) {
            return true;
        }
        j += 1;
    }
    false
}

fn family(k: usize) -> (r: (&'static [&'static str], &'static str))
    requires
        k < 16,
    ensures
        r.0@.len() == app_glyphs()[k as int].0.len(),
        forall|j: int| 0 <= j < r.0@.len() ==> #[trigger] r.0@[j]@ == app_glyphs()[k as int].0[j],
        r.1@ == app_glyphs()[k as int].1,
{
    let r: (&'static [&'static str], &'static str) = if k == 0 {
        (&["firefox", "librewolf"], "\u{f269}")
    } else if k == 1 {
        (&["chromium", "chrome", "brave"], "\u{f268}")
    } else if k == 2 {
        (&["foot", "alacritty", "kitty", "wezterm", "urxvt", "xterm"], "\u{f120}")
    } else if k == 3 {
        (&["nvim", "neovim"], "\u{e62b}")
    } else if k == 4 {
        (&["vim"], "\u{e62b}")
    } else if k == 5 {
        (&["emacs"], "\u{e632}")
    } else if k == 6 {
        (&["code", "vscode"], "\u{e70c}")
    } else if k == 7 {
        (&["discord", "vesktop"], "\u{f392}")
    } else if k == 8 {
        (&["telegram", "tdesktop"], "\u{f2c6}")
    } else if k == 9 {
        (&["slack"], "\u{f198}")
    } else if k == 10 {
        (&["spotify"], "\u{f1bc}")
    } else if k == 11 {
        (&["mpv", "vlc"], "\u{f03d}")
    } else if k == 12 {
        (&["thunar", "nautilus", "dolphin", "nemo"], "\u{f07b}")
    } else if k == 13 {
        (&["obsidian"], "\u{f1d8}")
    } else if k == 14 {
        (&["steam"], "\u{f1b6}")
    } else {
        (&["ubisoft", "uplay", "uconnect"], "\u{f11b}")
    };
    r
}

/// The glyph drawn for an app without an icon (see [`app_glyph`]).
pub fn app_icon(app_id: &str) -> (g: &'static str)
    ensures
        g@ == app_glyph(app_id@),
{
    let id = chars_of(app_id);
    let s = ascii_lowercase_chars(id.as_slice());
    let mut k: usize = 0;
    while k < 16
        invariant
            k <= 16,
            s@ == ascii_lowercase(app_id@),
            glyph_from(s@, 0) == glyph_from(s@, k as int),
        decreases 16 - k,
    {
        let (parts, glyph) = family(k);
        let hit = any_part(s.as_slice(), parts);
        assert(hit == contains_any(s@, app_glyphs()[k as int].0)) by {
            if hit {
                let j = choose|j: int| 0 <= j < parts@.len() && #[trigger] contains(s@, parts@[j]@);
                assert(contains(s@, app_glyphs()[k as int].0[j]));
            }
            if contains_any(s@, app_glyphs()[k as int].0) {
                let j = choose|j: int|
                    0 <= j < app_glyphs()[k as int].0.len() && #[trigger] contains(
                        s@,
                        app_glyphs()[k as int].0[j],
                    );
                assert(contains(s@, parts@[j]@));
            }
        }
        if hit {
            return glyph;
        }
        k += 1;
    }
    "\u{f2d0}"
}

// ───────────────────────── desktop files ─────────────────────────

/// The icon a `.desktop` file names: the value of its first line that starts
/// with `Icon=`, trimmed.
pub open spec fn desktop_icon_of(content: Seq<char>) -> Option<Seq<char>> {
    icon_in(lines(content))
}

pub open spec fn icon_in(ls: Seq<Seq<char>>) -> Option<Seq<char>>
    decreases ls.len(),
{
    if ls.len() == 0 {
        None
    } else if starts_with(ls[0], "Icon="@) {
        Some(trim(ls[0].skip(5)))
    } else {
        icon_in(ls.skip(1))
    }
}

pub fn desktop_icon(content: &str) -> (r: Option<String>)
    ensures
        match r {
            Some(v) => desktop_icon_of(content@) == Some(v@),
            None => desktop_icon_of(content@) is None,
        },
{
    let cs = chars_of(content);
    let ls = lines_of(cs.as_slice());
    let key = chars_of("Icon=");
    proof {
        reveal_strlit("Icon=");
    }
    let ghost all = views(ls@);
    assert(all.skip(0) =~= all);
    let mut i: usize = 0;
    while i < ls.len()
        invariant
            i <= ls@.len(),
            all == views(ls@),
            all == lines(content@),
            key@ == "Icon="@,
            key@.len() == 5,
            icon_in(all) == icon_in(all.skip(i as int)),
        decreases ls.len() - i,
    {
        assert(all.skip(i as int)[0] == ls@[i as int]@);
        if starts_with_chars(ls[i].as_slice(), key.as_slice()) {
            let rest = crate::text::copy_range(ls[i].as_slice(), 5, ls[i].len());
            let v = trim_chars(rest.as_slice());
            assert(rest@ =~= ls@[i as int]@.skip(5));
            return Some(string_of(v.as_slice()));
        }
        assert(all.skip(i as int).skip(1) =~= all.skip(i + 1));
        i += 1;
    }
    None
}

// ───────────────────────── PNG pixels ─────────────────────────

/// What the PNG decoder (identity transformations, default limits) makes of
/// `bytes`: the first frame's buffer, its width and height, its bit depth and
/// its colour type code (PNG's: 0 grey, 2 RGB, 3 indexed, 4 grey+alpha, 6
/// RGBA); none when it cannot decode them.
pub uninterp spec fn png_frame(bytes: Seq<u8>) -> Option<(Seq<u8>, u32, u32, u8, u8)>;

/// Decodes the first frame of a PNG through the `png` crate
/// (`Decoder::new`, `read_info`, `output_buffer_size`, `next_frame`); the
/// bit depth and colour type are handed out as their PNG codes.
#[verifier::external_body]
fn decode_png_frame(bytes: &[u8]) -> (r: Option<(Vec<u8>, u32, u32, u8, u8)>)
    ensures
        match r {
            Some((buf, w, h, depth, color)) => png_frame(bytes@) == Some((buf@, w, h, depth, color)),
            None => png_frame(bytes@) is None,
        },
{
    let decoder = png::Decoder::new(std::io::Cursor::new(bytes));
    let mut reader = match decoder.read_info() {
        Ok(r) => r,
        Err(_) => return None,
    };
    let mut buf = vec![0u8; reader.output_buffer_size()];
    match reader.next_frame(&mut buf) {
        Ok(info) => Some((buf, info.width, info.height, info.bit_depth as u8, info.color_type as u8)),
        Err(_) => None,
    }
}

/// Bytes per pixel of the colour types an icon can have (0 for the others).
pub open spec fn channels(color: u8) -> nat {
    if color == 6 {
        4
    } else if color == 2 {
        3
    } else if color == 4 {
        2
    } else if color == 0 {
        1
    } else {
        0
    }
}

/// Byte `i` of the RGBA image made of the first `n` pixels of `buf` in colour
/// type `color`: RGB gets opaque alpha, grey is copied to red, green and blue.
pub open spec fn rgba_byte(buf: Seq<u8>, color: u8, i: int) -> u8 {
    let p = i / 4;
    let c = i % 4;
    if color == 6 {
        buf[i]
    } else if color == 2 {
        if c == 3 {
            255
        } else {
            buf[3 * p + c]
        }
    } else if color == 4 {
        if c == 3 {
            buf[2 * p + 1]
        } else {
            buf[2 * p]
        }
    } else {
        if c == 3 {
            255
        } else {
            buf[p]
        }
    }
}

pub open spec fn rgba_of(buf: Seq<u8>, n: nat, color: u8) -> Seq<u8> {
    Seq::new(n * 4, |i: int| rgba_byte(buf, color, i))
}

/// An icon's pixels as RGBA from a frame `w` × `h` in colour type `color`.
pub fn to_rgba(buf: &[u8], w: u32, h: u32, color: u8) -> (r: Vec<u8>)
    requires
        channels(color) > 0,
        w * h * 4 <= u32::MAX,
        buf@.len() >= w * h * channels(color),
    ensures
        r@ == rgba_of(buf@, (w * h) as nat, color),
{
    let n: usize = (w * h) as usize;
    let mut out: Vec<u8> = Vec::new();
    let mut p: usize = 0;
    while p < n
        invariant
            n == w * h,
            n * 4 <= u32::MAX,
            channels(color) > 0,
            buf@.len() >= n * channels(color),
            p <= n,
            out@.len() == p * 4,
            forall|i: int| 0 <= i < p * 4 ==> #[trigger] out@[i] == rgba_byte(buf@, color, i),
        decreases n - p,
    {
        let ghost o0 = out@;
        if color == 6 {
            assert(4 * p + 3 < buf@.len()) by (nonlinear_arith)
                requires
                    p < n,
                    buf@.len() >= n * 4,
            ;
            out.push(buf[4 * p]);
            out.push(buf[4 * p + 1]);
            out.push(buf[4 * p + 2]);
            out.push(buf[4 * p + 3]);
        } else if color == 2 {
            assert(3 * p + 2 < buf@.len()) by (nonlinear_arith)
                requires
                    p < n,
                    buf@.len() >= n * 3,
            ;
            out.push(buf[3 * p]);
            out.push(buf[3 * p + 1]);
            out.push(buf[3 * p + 2]);
            out.push(255);
        } else if color == 4 {
            assert(2 * p + 1 < buf@.len()) by (nonlinear_arith)
                requires
                    p < n,
                    buf@.len() >= n * 2,
            ;
            out.push(buf[2 * p]);
            out.push(buf[2 * p]);
            out.push(buf[2 * p]);
            out.push(buf[2 * p + 1]);
        } else {
            assert(p < buf@.len()) by (nonlinear_arith)
                requires
                    p < n,
                    buf@.len() >= n * 1,
            ;
            out.push(buf[p]);
            out.push(buf[p]);
            out.push(buf[p]);
            out.push(255);
        }
        proof {
            assert forall|i: int| 0 <= i < (p + 1) * 4 implies #[trigger] out@[i] == rgba_byte(
                buf@,
                color,
                i,
            ) by {
                if i >= p * 4 {
                    assert(i / 4 == p as int);
                    assert(i % 4 == i - p * 4);
                } else {
                    assert(out@[i] == o0[i]);
                }
            }
        }
        p += 1;
    }
    assert(out@ =~= rgba_of(buf@, (w * h) as nat, color));
    out
}

/// The icon pixels in a PNG file's bytes: an 8-bit frame of a colour type an
/// icon can have, as RGBA with its width and height; none otherwise (also for
/// a frame too large to address, or a buffer too short for its size, which
/// the decoder does not produce).
pub open spec fn icon_pixels(bytes: Seq<u8>) -> Option<(Seq<u8>, u32, u32)> {
    match png_frame(bytes) {
        Some((buf, w, h, depth, color)) => if depth == 8 && channels(color) > 0 && w * h * 4
            <= u32::MAX && buf.len() >= w * h * channels(color) {
            Some((rgba_of(buf, (w * h) as nat, color), w, h))
        } else {
            None
        },
        None => None,
    }
}

pub fn decode_icon(bytes: &[u8]) -> (r: Option<(Vec<u8>, u32, u32)>)
    ensures
        match r {
            Some((px, w, h)) => icon_pixels(bytes@) == Some((px@, w, h)),
            None => icon_pixels(bytes@) is None,
        },
{
    match decode_png_frame(bytes) {
        None => None,
        Some((buf, w, h, depth, color)) => {
            if depth != 8 {
                return None;
            }
            let ch: u64 = if color == 6 {
                4
            } else if color == 2 {
                3
            } else if color == 4 {
                2
            } else if color == 0 {
                1
            } else {
                0
            };
            if ch == 0 {
                return None;
            }
            assert(w as u64 * h as u64 <= 0xffff_ffff * 0xffff_ffff) by (nonlinear_arith)
                requires
                    w <= 0xffff_ffff,
                    h <= 0xffff_ffff,
            ;
            let area: u64 = w as u64 * h as u64;
            if area > 0xffff_ffff / 4 {
                return None;
            }
            if (buf.len() as u64) < area * ch {
                return None;
            }
            let px = to_rgba(buf.as_slice(), w, h, color);
            Some((px, w, h))
        },
    }
}

// ───────────────────────── buffers ─────────────────────────

/// RGBA pixels as the BGRA bytes a Wayland ARGB8888 buffer holds: red and
/// blue swap places in every pixel.
pub open spec fn bgra_of(d: Seq<u8>) -> Seq<u8> {
    Seq::new(
        d.len(),
        |i: int|
            if i % 4 == 0 {
                d[i + 2]
            } else if i % 4 == 2 {
                d[i - 2]
            } else {
                d[i]
            },
    )
}

pub fn rgba_to_bgra(data: &[u8]) -> (out: Vec<u8>)
    requires
        data@.len() % 4 == 0,
    ensures
        out@ == bgra_of(data@),
{
    let mut out: Vec<u8> = Vec::new();
    let mut i: usize = 0;
    while i < data.len()
        invariant
            data@.len() % 4 == 0,
            i <= data@.len(),
            i % 4 == 0,
            out@.len() == i,
            forall|k: int| 0 <= k < i ==> #[trigger] out@[k] == bgra_of(data@)[k],
        decreases data.len() - i,
    {
        out.push(data[i + 2]);
        out.push(data[i + 1]);
        out.push(data[i]);
        out.push(data[i + 3]);
        i += 4;
    }
    assert(out@ =~= bgra_of(data@));
    out
}

// ───────────────────────── icon cache ─────────────────────────

/// The key under which an app's icon of a given size is cached: `app_id@size`.
pub open spec fn cache_key_of(app_id: Seq<char>, size: u32) -> Seq<char> {
    app_id + "@"@ + decimal(size as nat)
}

/// The cache key for `app_id` at `size` pixels.
pub fn icon_cache_key(app_id: &str, size: u32) -> (k: String)
    ensures
        k@ == cache_key_of(app_id@, size),
{
    let mut k = chars_of(app_id);
    let at = chars_of("@");
    push_all(&mut k, at.as_slice());
    let d = decimal_of(size as u64);
    push_all(&mut k, d.as_slice());
    string_of(k.as_slice())
}

pub open spec fn opt_bytes(o: Option<Vec<u8>>) -> Option<Seq<u8>> {
    match o {
        Some(v) => Some(v@),
        None => None,
    }
}

/// What the entries stand for: each key bound to its value, a later entry
/// winning over an earlier one with the same key.
pub open spec fn entries_map(es: Seq<(Vec<char>, Option<Vec<u8>>)>) -> Map<Seq<char>, Option<Seq<u8>>>
    decreases es.len(),
{
    if es.len() == 0 {
        Map::empty()
    } else {
        entries_map(es.drop_last()).insert(es.last().0@, opt_bytes(es.last().1))
    }
}

/// Looked-up icons (RGBA bytes, or `None` for an app without one), by cache
/// key, so that the file system is searched only once per app and size.
pub struct IconCache {
    entries: Vec<(Vec<char>, Option<Vec<u8>>)>,
}

impl View for IconCache {
    type V = Map<Seq<char>, Option<Seq<u8>>>;

    closed spec fn view(&self) -> Map<Seq<char>, Option<Seq<u8>>> {
        entries_map(self.entries@)
    }
}

/// Entries past `i` that do not bind `k` leave its binding as the first `i`
/// give it.
proof fn lemma_entries_map_tail(es: Seq<(Vec<char>, Option<Vec<u8>>)>, i: int, k: Seq<char>)
    requires
        0 <= i <= es.len(),
        forall|j: int| i <= j < es.len() ==> (#[trigger] es[j]).0@ != k,
    ensures
        entries_map(es).contains_key(k) == entries_map(es.take(i)).contains_key(k),
        entries_map(es).contains_key(k) ==> entries_map(es)[k] == entries_map(es.take(i))[k],
    decreases es.len() - i,
{
    if i < es.len() {
        assert(es.drop_last().take(i) =~= es.take(i));
        lemma_entries_map_tail(es.drop_last(), i, k);
        assert(es.last() == es[es.len() - 1]);
    } else {
        assert(es.take(i) =~= es);
    }
}

/// Replacing the last entry for a key rebinds that key and keeps the rest.
proof fn lemma_entries_map_replace(
    es: Seq<(Vec<char>, Option<Vec<u8>>)>,
    i: int,
    e: (Vec<char>, Option<Vec<u8>>),
)
    requires
        0 <= i < es.len(),
        es[i].0@ == e.0@,
        forall|j: int| i < j < es.len() ==> (#[trigger] es[j]).0@ != e.0@,
    ensures
        entries_map(es.update(i, e)) == entries_map(es).insert(e.0@, opt_bytes(e.1)),
    decreases es.len(),
{
    let u = es.update(i, e);
    if i == es.len() - 1 {
        assert(u.drop_last() =~= es.drop_last());
        assert(entries_map(u) =~= entries_map(es).insert(e.0@, opt_bytes(e.1)));
    } else {
        assert(u.drop_last() =~= es.drop_last().update(i, e));
        lemma_entries_map_replace(es.drop_last(), i, e);
        assert(es.last() == es[es.len() - 1]);
        assert(entries_map(u) =~= entries_map(es).insert(e.0@, opt_bytes(e.1)));
    }
}

impl IconCache {
    /// An empty cache.
    pub fn new() -> (c: IconCache)
        ensures
            c@ == Map::<Seq<char>, Option<Seq<u8>>>::empty(),
    {
        IconCache { entries: Vec::new() }
    }

    /// A copy of what is cached under `key`, if anything is.
    pub fn get(&self, key: &str) -> (r: Option<Option<Vec<u8>>>)
        ensures
            r is Some <==> self@.contains_key(key@),
            match r {
                Some(v) => opt_bytes(v) == self@[key@],
                None => true,
            },
    {
        let k = chars_of(key);
        let ghost es = self.entries@;
        let mut i: usize = self.entries.len();
        while i > 0
            invariant
                i <= es.len(),
                es == self.entries@,
                k@ == key@,
                forall|j: int| i <= j < es.len() ==> (#[trigger] es[j]).0@ != key@,
            decreases i,
        {
            if same_chars(self.entries[i - 1].0.as_slice(), k.as_slice()) {
                let v = match &self.entries[i - 1].1 {
                    Some(b) => Some(b.clone()),
                    None => None,
                };
                proof {
                    lemma_entries_map_tail(es, i as int, key@);
                    assert(es.take(i as int).drop_last() =~= es.take(i - 1));
                    assert(es.take(i as int).last() == es[i - 1]);
                    assert(v is Some ==> v->0@ =~= es[i - 1].1->0@);
                }
                return Some(v);
            }
            i -= 1;
        }
        proof {
            lemma_entries_map_tail(es, 0, key@);
            assert(es.take(0) =~= Seq::<(Vec<char>, Option<Vec<u8>>)>::empty());
        }
        None
    }

    /// Caches `value` under `key`, replacing what was there.
    pub fn insert(&mut self, key: &str, value: Option<Vec<u8>>)
        ensures
            final(self)@ == old(self)@.insert(key@, opt_bytes(value)),
    {
        let k = chars_of(key);
        let ghost es = self.entries@;
        let mut i: usize = self.entries.len();
        while i > 0
            invariant
                i <= es.len(),
                es == self.entries@,
                es == old(self).entries@,
                k@ == key@,
                forall|j: int| i <= j < es.len() ==> (#[trigger] es[j]).0@ != key@,
            decreases i,
        {
            if same_chars(self.entries[i - 1].0.as_slice(), k.as_slice()) {
                let ghost e = (k, value);
                self.entries.set(i - 1, (k, value));
                proof {
                    assert(es[i - 1].0@ == e.0@);
                    lemma_entries_map_replace(es, (i - 1) as int, e);
                }
                return;
            }
            i -= 1;
        }
        self.entries.push((k, value));
        proof {
            assert(self.entries@.drop_last() =~= es);
        }
    }
}

/// What the cache gives back for a key is what was last stored under it,
/// whatever was stored under other keys since.
pub proof fn lemma_cache_read_after_write(
    m: Map<Seq<char>, Option<Seq<u8>>>,
    key: Seq<char>,
    value: Option<Seq<u8>>,
    other: Seq<char>,
    other_value: Option<Seq<u8>>,
)
    requires
        other != key,
    ensures
        m.insert(key, value).contains_key(key),
        m.insert(key, value)[key] == value,
        m.insert(key, value).insert(other, other_value)[key] == value,
{
}

} // verus!

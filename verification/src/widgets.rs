use vstd::prelude::*;
use vstd::string::{StringExecFns, StringSliceAdditionalSpecFns};
use crate::json::{
    json_array_len_lookup, json_lookup, json_pointer_array_len, json_pointer_value, json_str,
    json_string,
};
use crate::text::{
    all_digits, chars_of, copy_range, decimal, lines, lines_of, parse_i32, parse_i32_spec,
    parse_u32, parse_u64, parse_unsigned, push_all, same_chars, split_once, split_once_chars,
    string_of, trim, trim_chars, views, words, words_of,
};

verus! {

/// What is playing, as the bar shows it.
#[derive(Debug, Clone, Default, PartialEq)]
pub struct MediaInfo {
    pub player: String,
    pub title: String,
    pub artist: String,
    pub playing: bool,
    /// a player exists
    pub present: bool,
}

/// One row of `playerctl --all-players --format
/// "{{playerInstance}}\t{{status}}\t{{title}}\t{{artist}}" metadata`, as
/// `(player, title, artist, playing)`: the player must be named, the title
/// non-empty once trimmed, and the status `Playing` or `Paused`.
pub open spec fn media_row(line: Seq<char>) -> Option<(Seq<char>, Seq<char>, Seq<char>, bool)> {
    match split_once(line, '\t') {
        None => None,
        Some((player, r1)) => match split_once(r1, '\t') {
            None => None,
            Some((status, r2)) => match split_once(r2, '\t') {
                None => None,
                Some((title, artist)) => {
                    if player.len() == 0 || trim(title).len() == 0 || !(status == "Playing"@
                        || status == "Paused"@) {
                        None
                    } else {
                        Some((player, trim(title), trim(artist), status == "Playing"@))
                    }
                },
            },
        },
    }
}

/// How strongly a row is preferred: playing beats paused, and between equals
/// the player shown before wins.
pub open spec fn media_rank(r: (Seq<char>, Seq<char>, Seq<char>, bool), previous: Seq<char>) -> int {
    (if r.3 {
        2int
    } else {
        0int
    }) + (if r.0 == previous {
        1int
    } else {
        0int
    })
}

/// The preferred row of the output lines: the last of the highest rank.
pub open spec fn best_media(ls: Seq<Seq<char>>, previous: Seq<char>) -> Option<
    (Seq<char>, Seq<char>, Seq<char>, bool),
>
    decreases ls.len(),
{
    if ls.len() == 0 {
        None
    } else {
        let b = best_media(ls.drop_last(), previous);
        match media_row(ls.last()) {
            None => b,
            Some(r) => match b {
                None => Some(r),
                Some(x) => if media_rank(r, previous) >= media_rank(x, previous) {
                    Some(r)
                } else {
                    b
                },
            },
        }
    }
}

/// The media info a chosen row gives, or the empty one.
pub open spec fn media_matches(m: MediaInfo, r: Option<(Seq<char>, Seq<char>, Seq<char>, bool)>) -> bool {
    match r {
        Some((p, t, a, pl)) => m.player@ == p && m.title@ == t && m.artist@ == a && m.playing == pl
            && m.present,
        None => m.player@ == Seq::<char>::empty() && m.title@ == Seq::<char>::empty()
            && m.artist@ == Seq::<char>::empty() && !m.playing && !m.present,
    }
}

fn media_row_of(line: &[char]) -> (r: Option<(Vec<char>, Vec<char>, Vec<char>, bool)>)
    ensures
        match r {
            Some((p, t, a, pl)) => media_row(line@) == Some((p@, t@, a@, pl)),
            None => media_row(line@) is None,
        },
{
    let (player, r1) = match split_once_chars(line, '\t') {
        Some(x) => x,
        None => return None,
    };
    let (status, r2) = match split_once_chars(r1.as_slice(), '\t') {
        Some(x) => x,
        None => return None,
    };
    let (title, artist) = match split_once_chars(r2.as_slice(), '\t') {
        Some(x) => x,
        None => return None,
    };
    let title = trim_chars(title.as_slice());
    let artist = trim_chars(artist.as_slice());
    let playing_word = chars_of("Playing");
    let paused_word = chars_of("Paused");
    let playing = same_chars(status.as_slice(), playing_word.as_slice());
    let paused = same_chars(status.as_slice(), paused_word.as_slice());
    if player.len() == 0 || title.len() == 0 || !(playing || paused) {
        None
    } else {
        Some((player, title, artist, playing))
    }
}

fn prefers(r: &(Vec<char>, Vec<char>, Vec<char>, bool), x: &(Vec<char>, Vec<char>, Vec<char>, bool), previous: &[char]) -> (b: bool)
    ensures
        b == (media_rank((r.0@, r.1@, r.2@, r.3), previous@) >= media_rank(
            (x.0@, x.1@, x.2@, x.3),
            previous@,
        )),
{
    let rr: u8 = (if r.3 {
        2
    } else {
        0
    }) + (if same_chars(r.0.as_slice(), previous) {
        1
    } else {
        0
    });
    let xr: u8 = (if x.3 {
        2
    } else {
        0
    }) + (if same_chars(x.0.as_slice(), previous) {
        1
    } else {
        0
    });
    rr >= xr
}

/// Picks the player to show from a `playerctl` snapshot of all players, so
/// that a paused browser cannot mask playback elsewhere: the last row that is
/// playing and, among those, from the player shown before; no usable row gives
/// the empty info.
pub fn select_media(output: &str, previous: &str) -> (m: MediaInfo)
    ensures
        media_matches(m, best_media(lines(output@), previous@)),
{
    let text = chars_of(output);
    let prev = chars_of(previous);
    let ls = lines_of(text.as_slice());
    let mut best: Option<(Vec<char>, Vec<char>, Vec<char>, bool)> = None;
    let mut i: usize = 0;
    while i < ls.len()
        invariant
            i <= ls@.len(),
            prev@ == previous@,
            views(ls@) == lines(output@),
            match best {
                Some((p, t, a, pl)) => best_media(views(ls@).take(i as int), previous@) == Some(
                    (p@, t@, a@, pl),
                ),
                None => best_media(views(ls@).take(i as int), previous@) is None,
            },
        decreases ls.len() - i,
    {
        proof {
            assert(views(ls@).take(i + 1).drop_last() =~= views(ls@).take(i as int));
            assert(views(ls@).take(i + 1).last() == ls@[i as int]@);
        }
        match media_row_of(ls[i].as_slice()) {
            None => {},
            Some(r) => {
                let take = match &best {
                    None => true,
                    Some(x) => prefers(&r, x, prev.as_slice()),
                };
                if take {
                    best = Some(r);
                }
            },
        }
        i += 1;
    }
    assert(views(ls@).take(ls@.len() as int) =~= views(ls@));
    match best {
        Some((p, t, a, pl)) => MediaInfo {
            player: string_of(p.as_slice()),
            title: string_of(t.as_slice()),
            artist: string_of(a.as_slice()),
            playing: pl,
            present: true,
        },
        None => MediaInfo {
            player: String::new(),
            title: String::new(),
            artist: String::new(),
            playing: false,
            present: false,
        },
    }
}

/// Current weather, as the bar shows it.
#[derive(Debug, Clone)]
pub struct WeatherInfo {
    pub temp: i32,
    pub feels_like: i32,
    pub unit: &'static str,
    pub location: String,
    pub description: String,
    pub stale: bool,
    /// WWO weather code
    pub code: u32,
    pub hi: i32,
    pub lo: i32,
}

/// `units` asks for Fahrenheit (`"F"`, any case).
pub open spec fn is_fahrenheit(units: Seq<char>) -> bool {
    units.len() == 1 && (units[0] == 'F' || units[0] == 'f')
}

/// Where the report lies in a wttr.in `?format=j1` document: under `data`
/// when the document has such a member, else at its top.
pub open spec fn weather_root(text: Seq<char>) -> Seq<char> {
    if json_pointer_value(text, "/data"@) is Some {
        "/data"@
    } else {
        ""@
    }
}

/// An array is at `pointer` in `text`.
pub open spec fn is_array_at(text: Seq<char>, pointer: Seq<char>) -> bool {
    json_pointer_array_len(text, pointer) matches Some(Some(_))
}

/// The string at `rest` below the array at `array` (both below the report's
/// root), as `report[array][0][..]` reads it: nothing unless an array is
/// there, so that an object keyed `"0"` does not stand in for its first
/// element.
pub open spec fn weather_field(text: Seq<char>, array: Seq<char>, rest: Seq<char>) -> Option<
    Seq<char>,
> {
    let root = weather_root(text);
    if is_array_at(text, root + array) {
        json_str(text, root + array + rest)
    } else {
        None
    }
}

/// The string at `rest` below the array `inner` of the first element of the
/// array `outer`, as `report[outer][0][inner][0][..]` reads it.
pub open spec fn weather_nested(
    text: Seq<char>,
    outer: Seq<char>,
    inner: Seq<char>,
    rest: Seq<char>,
) -> Option<Seq<char>> {
    let root = weather_root(text);
    if is_array_at(text, root + outer) && is_array_at(text, root + outer + inner) {
        json_str(text, root + outer + inner + rest)
    } else {
        None
    }
}

/// The report's current conditions.
pub open spec fn current() -> Seq<char> {
    "/current_condition"@
}

/// The report's forecast days.
pub open spec fn days() -> Seq<char> {
    "/weather"@
}

/// A text read as an `i32`, if there is one and it reads.
pub open spec fn opt_i32(o: Option<Seq<char>>) -> Option<i32> {
    match o {
        Some(s) => parse_i32_spec(s),
        None => None,
    }
}

/// A text read as a `u32`, if there is one and it reads.
pub open spec fn opt_u32(o: Option<Seq<char>>) -> Option<u32> {
    match o {
        Some(s) => match parse_unsigned(s, u32::MAX as nat) {
            Some(v) => Some(v as u32),
            None => None,
        },
        None => None,
    }
}

pub open spec fn opt_text(o: Option<String>) -> Option<Seq<char>> {
    match o {
        Some(s) => Some(s@),
        None => None,
    }
}

/// A field read as an `i32`.
pub open spec fn weather_i32(text: Seq<char>, array: Seq<char>, rest: Seq<char>) -> Option<i32> {
    opt_i32(weather_field(text, array, rest))
}

/// The weather code, read as a `u32`.
pub open spec fn weather_code(text: Seq<char>) -> Option<u32> {
    opt_u32(weather_field(text, current(), "/0/weatherCode"@))
}

pub open spec fn hi_rest(f: bool) -> Seq<char> {
    if f { "/0/maxtempF"@ } else { "/0/maxtempC"@ }
}

pub open spec fn lo_rest(f: bool) -> Seq<char> {
    if f { "/0/mintempF"@ } else { "/0/mintempC"@ }
}

pub open spec fn temp_rest(f: bool) -> Seq<char> {
    if f { "/0/temp_F"@ } else { "/0/temp_C"@ }
}

pub open spec fn feels_rest(f: bool) -> Seq<char> {
    if f { "/0/FeelsLikeF"@ } else { "/0/FeelsLikeC"@ }
}

/// A text, trimmed, or empty when it is not there.
pub open spec fn trimmed_or_empty(o: Option<Seq<char>>) -> Seq<char> {
    match o {
        Some(s) => trim(s),
        None => Seq::<char>::empty(),
    }
}

/// The report can be read: a code, today's high and low and the current
/// and felt temperatures in the requested unit.
pub open spec fn weather_readable(text: Seq<char>, units: Seq<char>) -> bool {
    let f = is_fahrenheit(units);
    &&& weather_code(text) is Some
    &&& weather_i32(text, days(), hi_rest(f)) is Some
    &&& weather_i32(text, days(), lo_rest(f)) is Some
    &&& weather_i32(text, current(), temp_rest(f)) is Some
    &&& weather_i32(text, current(), feels_rest(f)) is Some
}

fn extend(v: &mut Vec<char>, part: &str)
    ensures
        final(v)@ == old(v)@ + part@,
{
    let c = chars_of(part);
    push_all(v, c.as_slice());
}

fn copy_root(root: &[char]) -> (v: Vec<char>)
    ensures
        v@ == root@,
{
    let v = copy_range(root, 0, root.len());
    assert(root@.subrange(0, root@.len() as int) =~= root@);
    v
}

fn array_at(text: &str, pointer: &[char]) -> (b: bool)
    ensures
        b == is_array_at(text@, pointer@),
{
    let p = string_of(pointer);
    match json_array_len_lookup(text, p.as_str()) {
        Some(Some(_)) => true,
        _ => false,
    }
}

fn string_at(text: &str, pointer: &[char]) -> (r: Option<String>)
    ensures
        match r {
            Some(s) => json_str(text@, pointer@) == Some(s@),
            None => json_str(text@, pointer@) is None,
        },
{
    let p = string_of(pointer);
    json_string(text, p.as_str())
}

/// `weather_field` read by the program.
fn field_of(text: &str, root: &[char], array: &str, rest: &str) -> (r: Option<String>)
    requires
        root@ == weather_root(text@),
    ensures
        match r {
            Some(s) => weather_field(text@, array@, rest@) == Some(s@),
            None => weather_field(text@, array@, rest@) is None,
        },
{
    let mut p = copy_root(root);
    extend(&mut p, array);
    if !array_at(text, p.as_slice()) {
        return None;
    }
    extend(&mut p, rest);
    string_at(text, p.as_slice())
}

/// `weather_nested` read by the program.
fn nested_of(text: &str, root: &[char], outer: &str, inner: &str, rest: &str) -> (r: Option<String>)
    requires
        root@ == weather_root(text@),
    ensures
        opt_text(r) == weather_nested(text@, outer@, inner@, rest@),
{
    let mut p = copy_root(root);
    extend(&mut p, outer);
    if !array_at(text, p.as_slice()) {
        return None;
    }
    extend(&mut p, inner);
    if !array_at(text, p.as_slice()) {
        return None;
    }
    extend(&mut p, rest);
    string_at(text, p.as_slice())
}

fn i32_of(o: &Option<String>) -> (r: Option<i32>)
    ensures
        r == opt_i32(opt_text(*o)),
{
    match o {
        Some(s) => {
            let cs = chars_of(s.as_str());
            parse_i32(cs.as_slice())
        },
        None => None,
    }
}

fn words_of_text(o: &Option<String>) -> (r: String)
    ensures
        r@ == trimmed_or_empty(opt_text(*o)),
{
    match o {
        Some(s) => {
            let cs = chars_of(s.as_str());
            let t = trim_chars(cs.as_slice());
            string_of(t.as_slice())
        },
        None => String::new(),
    }
}

/// The report from the texts read out of a wttr.in document: the weather
/// code, today's high and low, the current and felt temperatures (all in the
/// unit asked for, Fahrenheit when `fahrenheit`), the area's name and the
/// description. It is there when the code reads as a `u32` and the four
/// temperatures as `i32`s; the name and the description are trimmed, empty
/// when missing.
pub fn weather_from_fields(
    code: Option<String>,
    hi: Option<String>,
    lo: Option<String>,
    temp: Option<String>,
    feels_like: Option<String>,
    location: Option<String>,
    description: Option<String>,
    fahrenheit: bool,
) -> (r: Option<WeatherInfo>)
    ensures
        r is Some <==> (opt_u32(opt_text(code)) is Some && opt_i32(opt_text(hi)) is Some && opt_i32(
            opt_text(lo),
        ) is Some && opt_i32(opt_text(temp)) is Some && opt_i32(opt_text(feels_like)) is Some),
        r matches Some(w) ==> {
            &&& Some(w.code) == opt_u32(opt_text(code))
            &&& Some(w.hi) == opt_i32(opt_text(hi))
            &&& Some(w.lo) == opt_i32(opt_text(lo))
            &&& Some(w.temp) == opt_i32(opt_text(temp))
            &&& Some(w.feels_like) == opt_i32(opt_text(feels_like))
            &&& w.unit@ == (if fahrenheit { "F"@ } else { "C"@ })
            &&& w.location@ == trimmed_or_empty(opt_text(location))
            &&& w.description@ == trimmed_or_empty(opt_text(description))
            &&& !w.stale
        },
{
    let code = match &code {
        Some(s) => {
            let cs = chars_of(s.as_str());
            parse_u32(cs.as_slice())
        },
        None => None,
    };
    let code = match code {
        Some(c) => c,
        None => return None,
    };
    let hi = match i32_of(&hi) {
        Some(v) => v,
        None => return None,
    };
    let lo = match i32_of(&lo) {
        Some(v) => v,
        None => return None,
    };
    let temp = match i32_of(&temp) {
        Some(v) => v,
        None => return None,
    };
    let feels_like = match i32_of(&feels_like) {
        Some(v) => v,
        None => return None,
    };
    let location = words_of_text(&location);
    let description = words_of_text(&description);
    let unit: &'static str = if fahrenheit { "F" } else { "C" };
    Some(WeatherInfo { code, hi, lo, temp, feels_like, unit, location, description, stale: false })
}

/// Reads a wttr.in `?format=j1` report (`json`) in the requested units
/// (`"F"` for Fahrenheit, anything else Celsius).
pub fn parse_weather(json: &str, units: &str) -> (r: Option<WeatherInfo>)
    ensures
        match r {
            Some(w) => {
                let f = is_fahrenheit(units@);
                &&& weather_readable(json@, units@)
                &&& Some(w.code) == weather_code(json@)
                &&& Some(w.hi) == weather_i32(json@, days(), hi_rest(f))
                &&& Some(w.lo) == weather_i32(json@, days(), lo_rest(f))
                &&& Some(w.temp) == weather_i32(json@, current(), temp_rest(f))
                &&& Some(w.feels_like) == weather_i32(json@, current(), feels_rest(f))
                &&& w.unit@ == (if f { "F"@ } else { "C"@ })
                &&& w.location@ == trimmed_or_empty(
                    weather_nested(json@, "/nearest_area"@, "/0/areaName"@, "/0/value"@),
                )
                &&& w.description@ == trimmed_or_empty(
                    weather_nested(json@, current(), "/0/weatherDesc"@, "/0/value"@),
                )
                &&& !w.stale
            },
            None => !weather_readable(json@, units@),
        },
{
    let root: Vec<char> = match json_lookup(json, "/data") {
        Some(_) => chars_of("/data"),
        None => chars_of(""),
    };
    assert(root@ == weather_root(json@));
    let uc = chars_of(units);
    let f = uc.len() == 1 && (uc[0] == 'F' || uc[0] == 'f');
    let r = root.as_slice();
    let code = field_of(json, r, "/current_condition", "/0/weatherCode");
    let hi = field_of(json, r, "/weather", if f { "/0/maxtempF" } else { "/0/maxtempC" });
    let lo = field_of(json, r, "/weather", if f { "/0/mintempF" } else { "/0/mintempC" });
    let temp = field_of(json, r, "/current_condition", if f { "/0/temp_F" } else { "/0/temp_C" });
    let feels = field_of(json, r, "/current_condition", if f { "/0/FeelsLikeF" } else { "/0/FeelsLikeC" });
    let location = nested_of(json, r, "/nearest_area", "/0/areaName", "/0/value");
    let description = nested_of(json, r, "/current_condition", "/0/weatherDesc", "/0/value");
    weather_from_fields(code, hi, lo, temp, feels, location, description, f)
}

/// A byte that stands for itself in a URL path (RFC 3986 unreserved).
pub open spec fn url_unreserved(b: u8) -> bool {
    (48 <= b <= 57) || (65 <= b <= 90) || (97 <= b <= 122) || b == 45 || b == 46 || b == 95
        || b == 126
}

/// An upper-case hexadecimal digit for `d` (0–15).
pub open spec fn hex_upper(d: int) -> char {
    if d < 10 {
        ((d + 48) as int) as char
    } else {
        ((d + 55) as int) as char
    }
}

/// The percent-encoding of bytes: unreserved bytes kept, others as `%XX`.
pub open spec fn percent_encode(b: Seq<u8>) -> Seq<char>
    decreases b.len(),
{
    if b.len() == 0 {
        seq![]
    } else {
        let last = b.last();
        percent_encode(b.drop_last()) + if url_unreserved(last) {
            seq![(last as int) as char]
        } else {
            seq!['%', hex_upper((last / 16) as int), hex_upper((last % 16) as int)]
        }
    }
}

/// A character that may stand in a percent-encoded URL path segment: an
/// unreserved character or the `%` of an escape.
pub open spec fn segment_char(c: char) -> bool {
    ('0' <= c <= '9') || ('A' <= c <= 'Z') || ('a' <= c <= 'z') || c == '-' || c == '.' || c
        == '_' || c == '~' || c == '%'
}

/// A percent-encoded location is one path segment: it holds only unreserved
/// characters and `%` escapes, so no `/`, `?`, `&` or `#` that could end the
/// segment or add URL options.
pub proof fn lemma_encoded_location_is_one_segment(b: Seq<u8>)
    ensures
        forall|i: int| 0 <= i < percent_encode(b).len() ==> segment_char(#[trigger] percent_encode(b)[i]),
    decreases b.len(),
{
    if b.len() > 0 {
        lemma_encoded_location_is_one_segment(b.drop_last());
        let last = b.last();
        let head = percent_encode(b.drop_last());
        let tail = if url_unreserved(last) {
            seq![(last as int) as char]
        } else {
            seq!['%', hex_upper((last / 16) as int), hex_upper((last % 16) as int)]
        };
        assert(percent_encode(b) == head + tail);
        assert forall|i: int| 0 <= i < percent_encode(b).len() implies segment_char(
            #[trigger] percent_encode(b)[i],
        ) by {
            if i >= head.len() {
                assert(percent_encode(b)[i] == tail[i - head.len()]);
            } else {
                assert(percent_encode(b)[i] == head[i]);
            }
        }
    }
}

fn hex_upper_of(d: u8) -> (c: char)
    requires
        d < 16,
    ensures
        c == hex_upper(d as int),
{
    if d < 10 {
        (d + 48) as char
    } else {
        (d + 55) as char
    }
}

/// The wttr.in URL of the JSON report for `location`: the trimmed location,
/// percent-encoded as a path segment so that it cannot add URL options.
pub fn weather_url(location: &str) -> (u: String)
    ensures
        u@ == "https://wttr.in/"@ + percent_encode(vstd::utf8::encode_utf8(trim(location@)))
            + "?format=j1"@,
{
    let lc = chars_of(location);
    let t = trim_chars(lc.as_slice());
    let ts = string_of(t.as_slice());
    let bytes = ts.as_str().as_bytes();
    let mut out = chars_of("https://wttr.in/");
    let ghost head = out@;
    let mut i: usize = 0;
    while i < bytes.len()
        invariant
            i <= bytes@.len(),
            out@ == head + percent_encode(bytes@.take(i as int)),
        decreases bytes.len() - i,
    {
        let b = bytes[i];
        assert(bytes@.take(i + 1).drop_last() =~= bytes@.take(i as int));
        let ghost pre = out@;
        if (48 <= b && b <= 57) || (65 <= b && b <= 90) || (97 <= b && b <= 122) || b == 45 || b
            == 46 || b == 95 || b == 126 {
            out.push(b as char);
        } else {
            out.push('%');
            out.push(hex_upper_of(b / 16));
            out.push(hex_upper_of(b % 16));
        }
        assert(out@ =~= head + percent_encode(bytes@.take(i + 1)));
        i += 1;
    }
    assert(bytes@.take(bytes@.len() as int) =~= bytes@);
    let tail = chars_of("?format=j1");
    push_all(&mut out, tail.as_slice());
    string_of(out.as_slice())
}

/// Nerd Font glyph candidates for a WWO weather code (the first that the font
/// has wins).
pub open spec fn weather_glyphs(code: u32) -> Seq<char> {
    if code == 113 {
        seq!['\u{e30d}', '\u{f185}']
    } else if code == 116 {
        seq!['\u{e302}', '\u{f185}']
    } else if code == 119 || code == 122 {
        seq!['\u{e33d}', '\u{f0c2}']
    } else if code == 143 || code == 248 || code == 260 {
        seq!['\u{e313}', '\u{f0c2}']
    } else if code == 200 || code == 386 || code == 389 || code == 392 || code == 395 {
        seq!['\u{e31d}', '\u{f0e7}']
    } else if is_snow_code(code) {
        seq!['\u{e31a}', '\u{f2dc}']
    } else {
        seq!['\u{e318}', '\u{f043}']
    }
}

/// Snow and sleet codes.
pub open spec fn is_snow_code(code: u32) -> bool {
    code == 179 || code == 182 || code == 185 || code == 227 || code == 230 || code == 281 || code
        == 284 || code == 311 || code == 314 || code == 317 || code == 320 || code == 323 || code
        == 326 || code == 329 || code == 332 || code == 335 || code == 338 || code == 350 || code
        == 362 || code == 365 || code == 368 || code == 371 || code == 374 || code == 377
}

/// Nerd Font glyph candidates (first that the font has wins) for a WWO weather
/// code: sunny, partly cloudy, cloudy, fog, thunder, snow, else rain.
pub fn weather_candidates(code: u32) -> (g: &'static [char])
    ensures
        g@ == weather_glyphs(code),
{
    if code == 113 {
        &['\u{e30d}', '\u{f185}']
    } else if code == 116 {
        &['\u{e302}', '\u{f185}']
    } else if code == 119 || code == 122 {
        &['\u{e33d}', '\u{f0c2}']
    } else if code == 143 || code == 248 || code == 260 {
        &['\u{e313}', '\u{f0c2}']
    } else if code == 200 || code == 386 || code == 389 || code == 392 || code == 395 {
        &['\u{e31d}', '\u{f0e7}']
    } else if code == 179 || code == 182 || code == 185 || code == 227 || code == 230 || code
        == 281 || code == 284 || code == 311 || code == 314 || code == 317 || code == 320 || code
        == 323 || code == 326 || code == 329 || code == 332 || code == 335 || code == 338 || code
        == 350 || code == 362 || code == 365 || code == 368 || code == 371 || code == 374 || code
        == 377 {
        &['\u{e31a}', '\u{f2dc}']
    } else {
        &['\u{e318}', '\u{f043}']
    }
}

/// A counter column of `/proc/net/dev`, 0 when it does not read as a `u64`.
pub open spec fn net_count(s: Seq<char>) -> nat {
    match parse_unsigned(s, u64::MAX as nat) {
        Some(v) => v,
        None => 0,
    }
}

/// The (received, transmitted) bytes that one `/proc/net/dev` line adds: none
/// for the loopback interface, for a line without `:` and for one with fewer
/// than nine columns after the interface name.
pub open spec fn net_line(line: Seq<char>) -> (nat, nat) {
    match split_once(line, ':') {
        None => (0, 0),
        Some((iface, rest)) => if trim(iface) == "lo"@ {
            (0, 0)
        } else {
            let cols = words(rest);
            if cols.len() >= 9 {
                (net_count(cols[0]), net_count(cols[8]))
            } else {
                (0, 0)
            }
        },
    }
}

pub open spec fn net_sum(ls: Seq<Seq<char>>) -> (nat, nat)
    decreases ls.len(),
{
    if ls.len() == 0 {
        (0, 0)
    } else {
        let a = net_sum(ls.drop_last());
        let b = net_line(ls.last());
        ((a.0 + b.0) as nat, (a.1 + b.1) as nat)
    }
}

/// The lines after the two header lines.
pub open spec fn after_headers(ls: Seq<Seq<char>>) -> Seq<Seq<char>> {
    if ls.len() <= 2 {
        seq![]
    } else {
        ls.skip(2)
    }
}

/// The byte totals over all interfaces but loopback that `/proc/net/dev` shows.
pub open spec fn net_totals_of(content: Seq<char>) -> (nat, nat) {
    net_sum(after_headers(lines(content)))
}

/// The totals of some of the lines, from the first on, are at most those of
/// all of them.
pub proof fn lemma_net_sum_prefix(ls: Seq<Seq<char>>, i: int)
    requires
        0 <= i <= ls.len(),
    ensures
        net_sum(ls.take(i)).0 <= net_sum(ls).0,
        net_sum(ls.take(i)).1 <= net_sum(ls).1,
    decreases ls.len(),
{
    if i < ls.len() {
        assert(ls.drop_last().take(i) =~= ls.take(i));
        lemma_net_sum_prefix(ls.drop_last(), i);
    } else {
        assert(ls.take(i) =~= ls);
    }
}

fn net_count_of(s: &[char]) -> (v: u64)
    ensures
        v == net_count(s@),
{
    match parse_u64(s) {
        Some(v) => v,
        None => 0,
    }
}

fn net_line_of(line: &[char]) -> (r: (u64, u64))
    ensures
        r.0 == net_line(line@).0,
        r.1 == net_line(line@).1,
{
    match split_once_chars(line, ':') {
        None => (0, 0),
        Some((iface, rest)) => {
            let name = trim_chars(iface.as_slice());
            let lo = chars_of("lo");
            if same_chars(name.as_slice(), lo.as_slice()) {
                (0, 0)
            } else {
                let cols = words_of(rest.as_slice());
                if cols.len() >= 9 {
                    assert(views(cols@)[0] == cols@[0]@ && views(cols@)[8] == cols@[8]@);
                    (net_count_of(cols[0].as_slice()), net_count_of(cols[8].as_slice()))
                } else {
                    (0, 0)
                }
            }
        },
    }
}

/// Total received and transmitted bytes over all interfaces but loopback, from
/// the text of `/proc/net/dev`.
pub fn net_totals(content: &str) -> (r: (u64, u64))
    requires
        net_totals_of(content@).0 <= u64::MAX,
        net_totals_of(content@).1 <= u64::MAX,
    ensures
        r.0 == net_totals_of(content@).0,
        r.1 == net_totals_of(content@).1,
{
    let cs = chars_of(content);
    let all = lines_of(cs.as_slice());
    let ghost body = after_headers(views(all@));
    let mut rx: u64 = 0;
    let mut tx: u64 = 0;
    if all.len() <= 2 {
        return (0, 0);
    }
    let mut i: usize = 2;
    while i < all.len()
        invariant
            2 <= i <= all@.len(),
            body == views(all@).skip(2),
            net_sum(body).0 <= u64::MAX,
            net_sum(body).1 <= u64::MAX,
            rx == net_sum(body.take(i - 2)).0,
            tx == net_sum(body.take(i - 2)).1,
        decreases all.len() - i,
    {
        let (a, b) = net_line_of(all[i].as_slice());
        proof {
            assert(body.take(i - 1).drop_last() =~= body.take(i - 2));
            assert(body.take(i - 1).last() == all@[i as int]@);
            lemma_net_sum_prefix(body, i - 1);
        }
        rx = rx + a;
        tx = tx + b;
        i += 1;
    }
    assert(body.take(i - 2) =~= body);
    (rx, tx)
}

/// The chosen row ranks at least as high as every usable row.
pub proof fn lemma_best_media_dominates(ls: Seq<Seq<char>>, previous: Seq<char>, i: int)
    requires
        0 <= i < ls.len(),
        media_row(ls[i]) is Some,
    ensures
        best_media(ls, previous) is Some,
        media_rank(best_media(ls, previous).unwrap(), previous) >= media_rank(
            media_row(ls[i]).unwrap(),
            previous,
        ),
    decreases ls.len(),
{
    if i < ls.len() - 1 {
        lemma_best_media_dominates(ls.drop_last(), previous, i);
        assert(ls.drop_last()[i] == ls[i]);
    }
}

/// A playing player is always preferred: when any row reports playback, the
/// chosen one is playing.
pub proof fn lemma_media_prefers_playing(ls: Seq<Seq<char>>, previous: Seq<char>, i: int)
    requires
        0 <= i < ls.len(),
        media_row(ls[i]) matches Some(r) && r.3,
    ensures
        best_media(ls, previous) matches Some(b) && b.3,
{
    lemma_best_media_dominates(ls, previous, i);
}

/// The byte totals of `/proc/net/dev`, or none when one of them would not fit
/// in a `u64` (where adding them up overflows).
pub fn net_totals_checked(content: &str) -> (r: Option<(u64, u64)>)
    ensures
        match r {
            Some((rx, tx)) => rx == net_totals_of(content@).0 && tx == net_totals_of(content@).1,
            None => net_totals_of(content@).0 > u64::MAX || net_totals_of(content@).1 > u64::MAX,
        },
{
    let cs = chars_of(content);
    let all = lines_of(cs.as_slice());
    let ghost body = after_headers(views(all@));
    let mut rx: u64 = 0;
    let mut tx: u64 = 0;
    if all.len() <= 2 {
        return Some((0, 0));
    }
    let mut i: usize = 2;
    while i < all.len()
        invariant
            2 <= i <= all@.len(),
            body == views(all@).skip(2),
            body == after_headers(lines(content@)),
            rx == net_sum(body.take(i - 2)).0,
            tx == net_sum(body.take(i - 2)).1,
        decreases all.len() - i,
    {
        let (a, b) = net_line_of(all[i].as_slice());
        proof {
            assert(body.take(i - 1).drop_last() =~= body.take(i - 2));
            assert(body.take(i - 1).last() == all@[i as int]@);
            lemma_net_sum_prefix(body, i - 1);
        }
        match (rx.checked_add(a), tx.checked_add(b)) {
            (Some(x), Some(y)) => {
                rx = x;
                tx = y;
            },
            _ => {
                return None;
            },
        }
        i += 1;
    }
    assert(body.take(i - 2) =~= body);
    Some((rx, tx))
}

// ───────────────────────── weather polling ─────────────────────────

/// Seconds between weather reports.
pub const WEATHER_REFRESH_SECS: u64 = 600;

/// Seconds before retrying a failed report.
pub const WEATHER_RETRY_SECS: u64 = 60;

/// Whether a weather report is due: asked for (the settings changed), or the
/// wait since the last one has run out.
pub fn weather_due(refetch_requested: bool, elapsed_secs: u64, wait_secs: u64) -> (due: bool)
    ensures
        due == (refetch_requested || elapsed_secs >= wait_secs),
{
    refetch_requested || elapsed_secs >= wait_secs
}

/// How a weather fetch went.
#[derive(Debug, Clone)]
pub enum WeatherFetch {
    /// No location is set: nothing was fetched.
    NoLocation,
    /// A report arrived; `settings_unchanged` says whether the location and
    /// units are still those it was asked for.
    Report { info: WeatherInfo, settings_unchanged: bool },
    /// The fetch or its parse failed.
    Failed,
}

/// What the poller does after a fetch.
#[derive(Debug, Clone, Copy, PartialEq, Eq, Structural)]
pub struct WeatherStep {
    /// the bar must redraw
    pub dirty: bool,
    /// seconds until the next report is due
    pub wait_secs: u64,
    /// poll again at once instead of sleeping
    pub poll_now: bool,
}

/// The fields of a report besides its staleness.
pub open spec fn report_fields(w: WeatherInfo) -> (i32, i32, Seq<char>, Seq<char>, Seq<char>, u32, i32, i32) {
    (w.temp, w.feels_like, w.unit@, w.location@, w.description@, w.code, w.hi, w.lo)
}

/// Applies a fetch to the shown weather: no location clears it; a report
/// replaces it, unless the settings changed meanwhile (then it is dropped and
/// the poller looks again at once); a failure marks the shown report stale
/// and retries sooner. Every outcome but a dropped report asks for a redraw.
pub fn apply_weather_fetch(shown: &mut Option<WeatherInfo>, fetch: WeatherFetch) -> (step: WeatherStep)
    ensures
        match fetch {
            WeatherFetch::NoLocation => *final(shown) is None && step == (WeatherStep {
                dirty: true,
                wait_secs: WEATHER_REFRESH_SECS,
                poll_now: false,
            }),
            WeatherFetch::Report { info, settings_unchanged } => if settings_unchanged {
                *final(shown) matches Some(w) && report_fields(w) == report_fields(info) && w.stale
                    == info.stale && step == (WeatherStep {
                    dirty: true,
                    wait_secs: WEATHER_REFRESH_SECS,
                    poll_now: false,
                })
            } else {
                *final(shown) == *old(shown) && step == (WeatherStep {
                    dirty: false,
                    wait_secs: WEATHER_REFRESH_SECS,
                    poll_now: true,
                })
            },
            WeatherFetch::Failed => step == (WeatherStep {
                dirty: true,
                wait_secs: WEATHER_RETRY_SECS,
                poll_now: false,
            }) && match *old(shown) {
                Some(o) => *final(shown) matches Some(w) && report_fields(w) == report_fields(o)
                    && w.stale,
                None => *final(shown) is None,
            },
        },
{
    match fetch {
        WeatherFetch::NoLocation => {
            *shown = None;
            WeatherStep { dirty: true, wait_secs: WEATHER_REFRESH_SECS, poll_now: false }
        },
        WeatherFetch::Report { info, settings_unchanged } => {
            if settings_unchanged {
                *shown = Some(info);
                WeatherStep { dirty: true, wait_secs: WEATHER_REFRESH_SECS, poll_now: false }
            } else {
                WeatherStep { dirty: false, wait_secs: WEATHER_REFRESH_SECS, poll_now: true }
            }
        },
        WeatherFetch::Failed => {
            let next = match shown.take() {
                Some(o) => Some(
                    WeatherInfo {
                        temp: o.temp,
                        feels_like: o.feels_like,
                        unit: o.unit,
                        location: o.location,
                        description: o.description,
                        stale: true,
                        code: o.code,
                        hi: o.hi,
                        lo: o.lo,
                    },
                ),
                None => None,
            };
            *shown = next;
            WeatherStep { dirty: true, wait_secs: WEATHER_RETRY_SECS, poll_now: false }
        },
    }
}

} // verus!

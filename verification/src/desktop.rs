use vstd::prelude::*;
use crate::config::string_views;
use crate::sort::{apply_order, is_text_order, lemma_text_order_distinct, stable_text_order};
use crate::text::{
    chars_of, copy_range, lines, lines_of, remove_all, remove_all_chars, same_chars, starts_with,
    starts_with_chars, string_of, trim, trim_chars, views, words, words_of, lowercase, lowercase_of,
    lemma_views_push, index_of, lemma_index_of, lemma_index_of_at, is_ws, ws_index, lemma_ws_index,
    lemma_ws_index_at,
};

verus! {

/// An application found in a `.desktop` file.
#[derive(Debug, Clone)]
pub struct DesktopEntry {
    pub name: String,
    pub command: String,
    pub icon: Option<String>,
    /// desktop file stem, used for icon lookup
    pub app_id: String,
}

/// What a scan of a `.desktop` file has found so far.
pub struct DesktopScan {
    pub name: Option<Seq<char>>,
    pub command: Option<Seq<char>>,
    pub icon: Option<Seq<char>>,
    pub no_display: bool,
    pub entry_type: Option<Seq<char>>,
    pub in_section: bool,
}

pub open spec fn empty_scan() -> DesktopScan {
    DesktopScan {
        name: None,
        command: None,
        icon: None,
        no_display: false,
        entry_type: None,
        in_section: false,
    }
}

/// One line of a `.desktop` file, trimmed: `[Desktop Entry]` opens the
/// section, any other `[` header closes it, and inside it the first `Name=`,
/// the last `Exec=`, `Icon=` and `Type=`, and `NoDisplay=true` or
/// `Hidden=true` are noted.
pub open spec fn desktop_step(s: DesktopScan, raw: Seq<char>) -> DesktopScan {
    let line = trim(raw);
    if line == "[Desktop Entry]"@ {
        DesktopScan { in_section: true, ..s }
    } else if starts_with(line, "["@) {
        DesktopScan { in_section: false, ..s }
    } else if !s.in_section {
        s
    } else if starts_with(line, "Name="@) {
        if s.name is None {
            DesktopScan { name: Some(line.skip(5)), ..s }
        } else {
            s
        }
    } else if starts_with(line, "Exec="@) {
        DesktopScan { command: Some(line.skip(5)), ..s }
    } else if starts_with(line, "Icon="@) {
        DesktopScan { icon: Some(line.skip(5)), ..s }
    } else if starts_with(line, "Type="@) {
        DesktopScan { entry_type: Some(line.skip(5)), ..s }
    } else if line == "NoDisplay=true"@ || line == "Hidden=true"@ {
        DesktopScan { no_display: true, ..s }
    } else {
        s
    }
}

pub open spec fn desktop_scan(ls: Seq<Seq<char>>) -> DesktopScan
    decreases ls.len(),
{
    if ls.len() == 0 {
        empty_scan()
    } else {
        desktop_step(desktop_scan(ls.drop_last()), ls.last())
    }
}

/// The application a `.desktop` file describes, as (name, exec, icon,
/// app id): it must be shown, of type `Application`, have a name and a command,
/// and its file must have a stem.
pub open spec fn desktop_entry_of(content: Seq<char>, stem: Option<Seq<char>>) -> Option<
    (Seq<char>, Seq<char>, Option<Seq<char>>, Seq<char>),
> {
    let s = desktop_scan(lines(content));
    if s.no_display || s.entry_type != Some("Application"@) || stem is None || s.name is None
        || s.command is None {
        None
    } else {
        Some((s.name->0, s.command->0, s.icon, stem->0))
    }
}

pub open spec fn opt_chars(o: Option<Vec<char>>) -> Option<Seq<char>> {
    match o {
        Some(v) => Some(v@),
        None => None,
    }
}

pub open spec fn opt_str(o: Option<String>) -> Option<Seq<char>> {
    match o {
        Some(v) => Some(v@),
        None => None,
    }
}

pub open spec fn entry_view(e: DesktopEntry) -> (Seq<char>, Seq<char>, Option<Seq<char>>, Seq<char>) {
    (e.name@, e.command@, opt_str(e.icon), e.app_id@)
}

fn opt_string(o: Option<Vec<char>>) -> (r: Option<String>)
    ensures
        opt_str(r) == opt_chars(o),
{
    match o {
        Some(v) => Some(string_of(v.as_slice())),
        None => None,
    }
}

/// Reads the text of a `.desktop` file whose file stem (the app id) is
/// `stem` (`None` when the path has none).
pub fn parse_desktop_entry(content: &str, stem: Option<&str>) -> (r: Option<DesktopEntry>)
    ensures
        match r {
            Some(e) => desktop_entry_of(content@, match stem {
                Some(s) => Some(s@),
                None => None,
            }) == Some(entry_view(e)),
            None => desktop_entry_of(content@, match stem {
                Some(s) => Some(s@),
                None => None,
            }) is None,
        },
{
    proof {
        reveal_strlit("Name=");
        reveal_strlit("Exec=");
        reveal_strlit("Icon=");
        reveal_strlit("Type=");
    }
    let cs = chars_of(content);
    let ls = lines_of(cs.as_slice());
    let header = chars_of("[Desktop Entry]");
    let open = chars_of("[");
    let name_key = chars_of("Name=");
    let exec_key = chars_of("Exec=");
    let icon_key = chars_of("Icon=");
    let type_key = chars_of("Type=");
    let nodisplay = chars_of("NoDisplay=true");
    let hidden = chars_of("Hidden=true");
    let mut name: Option<Vec<char>> = None;
    let mut cmd_line: Option<Vec<char>> = None;
    let mut icon: Option<Vec<char>> = None;
    let mut no_display = false;
    let mut entry_type: Option<Vec<char>> = None;
    let mut in_section = false;
    let mut i: usize = 0;
    while i < ls.len()
        invariant
            i <= ls@.len(),
            header@ == "[Desktop Entry]"@,
            open@ == "["@,
            name_key@ == "Name="@,
            exec_key@ == "Exec="@,
            icon_key@ == "Icon="@,
            type_key@ == "Type="@,
            nodisplay@ == "NoDisplay=true"@,
            hidden@ == "Hidden=true"@,
            desktop_scan(views(ls@).take(i as int)) == (DesktopScan {
                name: opt_chars(name),
                command: opt_chars(cmd_line),
                icon: opt_chars(icon),
                no_display,
                entry_type: opt_chars(entry_type),
                in_section,
            }),
        decreases ls.len() - i,
    {
        proof {
            reveal_strlit("Name=");
            reveal_strlit("Exec=");
            reveal_strlit("Icon=");
            reveal_strlit("Type=");
            assert(views(ls@).take(i + 1).drop_last() =~= views(ls@).take(i as int));
            assert(views(ls@).take(i + 1).last() == ls@[i as int]@);
        }
        let line = trim_chars(ls[i].as_slice());
        if same_chars(line.as_slice(), header.as_slice()) {
            in_section = true;
        } else if starts_with_chars(line.as_slice(), open.as_slice()) {
            in_section = false;
        } else if !in_section {
        } else if starts_with_chars(line.as_slice(), name_key.as_slice()) {
            if name.is_none() {
                let v = copy_range(line.as_slice(), 5, line.len());
                assert(v@ =~= line@.skip(5));
                name = Some(v);
            }
        } else if starts_with_chars(line.as_slice(), exec_key.as_slice()) {
            let v = copy_range(line.as_slice(), 5, line.len());
            assert(v@ =~= line@.skip(5));
            cmd_line = Some(v);
        } else if starts_with_chars(line.as_slice(), icon_key.as_slice()) {
            let v = copy_range(line.as_slice(), 5, line.len());
            assert(v@ =~= line@.skip(5));
            icon = Some(v);
        } else if starts_with_chars(line.as_slice(), type_key.as_slice()) {
            let v = copy_range(line.as_slice(), 5, line.len());
            assert(v@ =~= line@.skip(5));
            entry_type = Some(v);
        } else if same_chars(line.as_slice(), nodisplay.as_slice()) || same_chars(
            line.as_slice(),
            hidden.as_slice(),
        ) {
            no_display = true;
        }
        i += 1;
    }
    assert(views(ls@).take(ls@.len() as int) =~= views(ls@));
    if no_display {
        return None;
    }
    let app = chars_of("Application");
    let is_app = match &entry_type {
        Some(t) => same_chars(t.as_slice(), app.as_slice()),
        None => false,
    };
    if !is_app {
        return None;
    }
    let app_id = match stem {
        Some(s) => String::from_str(s),
        None => return None,
    };
    match (name, cmd_line) {
        (Some(n), Some(e)) => Some(
            DesktopEntry {
                name: string_of(n.as_slice()),
                command: string_of(e.as_slice()),
                icon: opt_string(icon),
                app_id,
            },
        ),
        _ => None,
    }
}

/// The Exec line without the field codes `%f %F %u %U %i %c %k`, removed in
/// that order.
pub open spec fn exec_without_codes(e: Seq<char>) -> Seq<char> {
    remove_all(
        remove_all(
            remove_all(
                remove_all(
                    remove_all(remove_all(remove_all(e, "%f"@), "%F"@), "%u"@),
                    "%U"@,
                ),
                "%i"@,
            ),
            "%c"@,
        ),
        "%k"@,
    )
}

fn remove_code(s: Vec<char>, code: &str) -> (r: Vec<char>)
    requires
        code@.len() > 0,
    ensures
        r@ == remove_all(s@, code@),
{
    let c = chars_of(code);
    remove_all_chars(s.as_slice(), c.as_slice())
}

/// Strips the Exec field codes and splits the rest at whitespace into the
/// command and its arguments (an empty command when nothing is left).
pub fn clean_exec(exec: &str) -> (r: (String, Vec<String>))
    ensures
        ({
            let w = words(exec_without_codes(exec@));
            if w.len() == 0 {
                r.0@ == Seq::<char>::empty() && r.1@.len() == 0
            } else {
                r.0@ == w[0] && string_views(r.1@) == w.skip(1)
            }
        }),
{
    proof {
        reveal_strlit("%f");
        reveal_strlit("%F");
        reveal_strlit("%u");
        reveal_strlit("%U");
        reveal_strlit("%i");
        reveal_strlit("%c");
        reveal_strlit("%k");
    }
    let s = chars_of(exec);
    let s = remove_code(s, "%f");
    let s = remove_code(s, "%F");
    let s = remove_code(s, "%u");
    let s = remove_code(s, "%U");
    let s = remove_code(s, "%i");
    let s = remove_code(s, "%c");
    let s = remove_code(s, "%k");
    let w = words_of(s.as_slice());
    if w.len() == 0 {
        return (String::new(), Vec::new());
    }
    let cmd = string_of(w[0].as_slice());
    let mut args: Vec<String> = Vec::new();
    let mut i: usize = 1;
    while i < w.len()
        invariant
            1 <= i <= w@.len(),
            string_views(args@) == views(w@).subrange(1, i as int),
        decreases w.len() - i,
    {
        let a = string_of(w[i].as_slice());
        let ghost pre = args@;
        args.push(a);
        assert(string_views(args@) =~= string_views(pre).push(a@));
        assert(string_views(args@) =~= views(w@).subrange(1, i + 1));
        i += 1;
    }
    assert(views(w@).subrange(1, w@.len() as int) =~= views(w@).skip(1));
    (cmd, args)
}

/// Whether an entry of the same name as entry `k` comes before it.
pub open spec fn name_seen_before(es: Seq<DesktopEntry>, k: int) -> bool {
    exists|j: int| 0 <= j < k && (#[trigger] es[j]).name@ == es[k].name@
}

/// The entries without those named like an earlier one (the first wins).
pub open spec fn unique_names(es: Seq<DesktopEntry>) -> Seq<DesktopEntry>
    decreases es.len(),
{
    if es.len() == 0 {
        Seq::empty()
    } else {
        let rest = unique_names(es.drop_last());
        if name_seen_before(es, es.len() - 1) {
            rest
        } else {
            rest.push(es.last())
        }
    }
}

/// The entries' names in lower case, by which the list is sorted.
pub open spec fn lower_names(es: Seq<DesktopEntry>) -> Seq<Seq<char>> {
    es.map_values(|e: DesktopEntry| lowercase_of(e.name@))
}

/// The launcher's list from the entries found, directory by directory:
/// duplicates by name removed (the first found wins), then sorted by name in
/// lower case, entries whose names tie keeping their order.
pub fn order_entries(found: Vec<DesktopEntry>) -> (r: Vec<DesktopEntry>)
    ensures
        exists|order: Seq<usize>|
            #[trigger] is_text_order(lower_names(unique_names(found@)), order) && r@.len()
                == order.len() && forall|p: int|
                0 <= p < r@.len() ==> #[trigger] r@[p] == unique_names(found@)[order[p] as int],
{
    let ghost all = found@;
    let n = found.len();
    let mut rest = found;
    let mut seen: Vec<Vec<char>> = Vec::new();
    let mut kept: Vec<DesktopEntry> = Vec::new();
    let mut keys: Vec<Vec<char>> = Vec::new();
    let mut i: usize = 0;
    while i < n
        invariant
            n == all.len(),
            i <= n,
            rest@ == all.skip(i as int),
            seen@.len() == i,
            forall|j: int| 0 <= j < i ==> #[trigger] seen@[j]@ == all[j].name@,
            kept@ == unique_names(all.take(i as int)),
            views(keys@) == lower_names(kept@),
        decreases n - i,
    {
        assert(all.take(i + 1).drop_last() =~= all.take(i as int));
        assert(rest@[0] == all[i as int]);
        let e = rest.remove(0);
        assert(rest@ =~= all.skip(i + 1));
        let name = chars_of(e.name.as_str());
        let mut dup = false;
        let mut j: usize = 0;
        while j < seen.len()
            invariant
                j <= seen@.len(),
                seen@.len() == i,
                i < n,
                n == all.len(),
                name@ == all[i as int].name@,
                forall|q: int| 0 <= q < i ==> #[trigger] seen@[q]@ == all[q].name@,
                dup == exists|q: int| 0 <= q < j && (#[trigger] all[q]).name@ == all[i as int].name@,
            decreases seen.len() - j,
        {
            if same_chars(seen[j].as_slice(), name.as_slice()) {
                dup = true;
                assert(all[j as int].name@ == all[i as int].name@);
            }
            j += 1;
        }
        proof {
            assert(dup == name_seen_before(all.take(i + 1), i as int)) by {
                if dup {
                    let q = choose|q: int| 0 <= q < i && (#[trigger] all[q]).name@ == all[i as int].name@;
                    assert(all.take(i + 1)[q] == all[q]);
                }
                if name_seen_before(all.take(i + 1), i as int) {
                    let q = choose|q: int|
                        0 <= q < i && (#[trigger] all.take(i + 1)[q]).name@ == all.take(i + 1)[i as int].name@;
                    assert(all.take(i + 1)[q] == all[q]);
                }
            }
            assert(all.take(i + 1).last() == all[i as int]);
        }
        seen.push(name);
        if !dup {
            let lower = lowercase(e.name.as_str());
            let key = chars_of(lower.as_str());
            let ghost k0 = keys@;
            let ghost kept0 = kept@;
            keys.push(key);
            kept.push(e);
            proof {
                lemma_views_push(k0, key);
                assert(lower_names(kept@) =~= lower_names(kept0).push(lowercase_of(e.name@)));
            }
        }
        i += 1;
    }
    assert(all.take(n as int) =~= all);
    let order = stable_text_order(&keys);
    proof {
        lemma_text_order_distinct(views(keys@), order@);
    }
    let r = apply_order(kept, &order);
    assert(is_text_order(lower_names(unique_names(all)), order@));
    r
}


// ───────────────────────── laws ─────────────────────────

/// What a scan keeps of a file: everything but whether it is inside the
/// `[Desktop Entry]` section.
pub open spec fn scan_found(s: DesktopScan) -> (
    Option<Seq<char>>,
    Option<Seq<char>>,
    Option<Seq<char>>,
    bool,
    Option<Seq<char>>,
) {
    (s.name, s.command, s.icon, s.no_display, s.entry_type)
}

/// A line that opens a section other than `[Desktop Entry]`.
pub open spec fn other_header(line: Seq<char>) -> bool {
    starts_with(trim(line), "["@) && trim(line) != "[Desktop Entry]"@
}

proof fn lemma_other_section_lines(ls: Seq<Seq<char>>, rest: Seq<Seq<char>>, m: int)
    requires
        1 <= m <= rest.len(),
        other_header(rest[0]),
        forall|i: int| 0 <= i < rest.len() ==> trim(#[trigger] rest[i]) != "[Desktop Entry]"@,
    ensures
        scan_found(desktop_scan(ls + rest.take(m))) == scan_found(desktop_scan(ls)),
        !desktop_scan(ls + rest.take(m)).in_section,
    decreases m,
{
    let t = ls + rest.take(m);
    assert(t.drop_last() =~= ls + rest.take(m - 1));
    assert(t.last() == rest[m - 1]);
    if m == 1 {
        assert(ls + rest.take(0) =~= ls);
    } else {
        lemma_other_section_lines(ls, rest, m - 1);
    }
}

/// Lines of another section never count: whatever follows a header other
/// than `[Desktop Entry]` (with no `[Desktop Entry]` header again) leaves what
/// the scan found unchanged, so an action's `Exec=` cannot replace the
/// application's.
pub proof fn lemma_other_sections_ignored(ls: Seq<Seq<char>>, rest: Seq<Seq<char>>)
    requires
        rest.len() > 0,
        other_header(rest[0]),
        forall|i: int| 0 <= i < rest.len() ==> trim(#[trigger] rest[i]) != "[Desktop Entry]"@,
    ensures
        scan_found(desktop_scan(ls + rest)) == scan_found(desktop_scan(ls)),
{
    lemma_other_section_lines(ls, rest, rest.len() as int);
    assert(rest.take(rest.len() as int) =~= rest);
}

proof fn lemma_index_of_append(c: Seq<char>, t: Seq<char>, ch: char)
    requires
        index_of(c, ch) < c.len(),
    ensures
        index_of(c + t, ch) == index_of(c, ch),
{
    lemma_index_of(c, ch);
    let k = index_of(c, ch);
    assert forall|j: int| 0 <= j < k implies (c + t)[j] != ch by {
        assert((c + t)[j] == c[j]);
    }
    assert((c + t)[k] == c[k]);
    lemma_index_of_at(c + t, ch, k);
}

proof fn lemma_lines_append(c: Seq<char>, t: Seq<char>)
    requires
        c.len() == 0 || c.last() == '\n',
    ensures
        lines(c + t) == lines(c) + lines(t),
    decreases c.len(),
{
    if c.len() == 0 {
        assert(c + t =~= t);
        assert(lines(c) =~= Seq::<Seq<char>>::empty());
        assert(lines(c) + lines(t) =~= lines(t));
    } else {
        lemma_index_of(c, '\n');
        if index_of(c, '\n') == c.len() {
            assert(c[c.len() - 1] == '\n');
        }
        let k = index_of(c, '\n');
        lemma_index_of_append(c, t, '\n');
        assert((c + t).take(k) =~= c.take(k));
        assert((c + t).skip(k + 1) =~= c.skip(k + 1) + t);
        let r = c.skip(k + 1);
        if r.len() > 0 {
            assert(r.last() == c.last());
        }
        lemma_lines_append(r, t);
        assert(lines(c + t) =~= lines(c) + lines(t));
    }
}

/// Appending another section to a `.desktop` file (text after a final line
/// ending, starting with a header other than `[Desktop Entry]`, without that
/// header again) leaves the application it describes unchanged.
pub proof fn lemma_appended_section_ignored(content: Seq<char>, extra: Seq<char>, stem: Option<Seq<char>>)
    requires
        content.len() == 0 || content.last() == '\n',
        lines(extra).len() > 0,
        other_header(lines(extra)[0]),
        forall|i: int|
            0 <= i < lines(extra).len() ==> trim(#[trigger] lines(extra)[i]) != "[Desktop Entry]"@,
    ensures
        desktop_entry_of(content + extra, stem) == desktop_entry_of(content, stem),
{
    lemma_lines_append(content, extra);
    lemma_other_sections_ignored(lines(content), lines(extra));
}

/// The Exec field codes.
pub open spec fn is_field_code(c: Seq<char>) -> bool {
    c == "%f"@ || c == "%F"@ || c == "%u"@ || c == "%U"@ || c == "%i"@ || c == "%c"@ || c == "%k"@
}

pub open spec fn no_percent(a: Seq<char>) -> bool {
    forall|i: int| 0 <= i < a.len() ==> a[i] != '%'
}

proof fn lemma_remove_after_plain(a: Seq<char>, b: Seq<char>, p: Seq<char>)
    requires
        no_percent(a),
        p.len() == 2,
        p[0] == '%',
    ensures
        remove_all(a + b, p) == a + remove_all(b, p),
    decreases a.len(),
{
    if a.len() == 0 {
        assert(a + b =~= b);
        assert(a + remove_all(b, p) =~= remove_all(b, p));
    } else {
        let s = a + b;
        if s.len() < 2 {
            assert(b.len() == 0);
            assert(remove_all(b, p) == b);
            assert(s =~= a + b);
        } else {
            assert(s.take(2)[0] == a[0]);
            assert(s.take(2) != p);
            assert(s.drop_first() =~= a.drop_first() + b);
            lemma_remove_after_plain(a.drop_first(), b, p);
            assert(remove_all(s, p) =~= a + remove_all(b, p));
        }
    }
}

proof fn lemma_remove_code(c: Seq<char>, p: Seq<char>)
    requires
        c.len() == 2,
        p.len() == 2,
    ensures
        remove_all(c, p) == (if c == p { Seq::<char>::empty() } else { c }),
        remove_all(Seq::<char>::empty(), p) == Seq::<char>::empty(),
{
    assert(c.take(2) =~= c);
    assert(remove_all(Seq::<char>::empty(), p) == Seq::<char>::empty());
    if c == p {
        assert(c.skip(2) =~= Seq::<char>::empty());
    } else {
        assert(c.drop_first().len() == 1);
        assert(remove_all(c.drop_first(), p) == c.drop_first());
        assert(seq![c[0]] + c.drop_first() =~= c);
    }
}

proof fn lemma_words_trailing_space(s: Seq<char>)
    ensures
        words(s + seq![' ']) == words(s),
    decreases s.len(),
{
    let t = s + seq![' '];
    assert(is_ws(' '));
    if s.len() == 0 {
        assert(t[0] == ' ');
        assert(t.drop_first() =~= Seq::<char>::empty());
        assert(words(t) == words(t.drop_first()));
    } else if is_ws(s[0]) {
        assert(t[0] == s[0]);
        assert(t.drop_first() =~= s.drop_first() + seq![' ']);
        lemma_words_trailing_space(s.drop_first());
    } else {
        lemma_ws_index(s);
        let k = ws_index(s);
        assert(t[0] == s[0]);
        assert forall|j: int| 0 <= j < k implies !is_ws(t[j]) by {
            assert(t[j] == s[j]);
        }
        if k < s.len() {
            assert(t[k] == s[k]);
            lemma_ws_index_at(t, k);
            assert(t.take(k) =~= s.take(k));
            assert(t.skip(k) =~= s.skip(k) + seq![' ']);
            lemma_words_trailing_space(s.skip(k));
            assert(words(t) == seq![t.take(k)] + words(t.skip(k)));
            assert(words(s) == seq![s.take(k)] + words(s.skip(k)));
        } else {
            assert(t[k] == ' ');
            lemma_ws_index_at(t, k);
            assert(t.take(k) =~= s);
            assert(t.skip(k) =~= seq![' ']);
            assert(seq![' '].drop_first() =~= Seq::<char>::empty());
            assert(s.take(k) =~= s);
            assert(s.skip(k) =~= Seq::<char>::empty());
            let sp = seq![' '];
            assert(sp[0] == ' ');
            assert(words(sp) == words(sp.drop_first()));
            assert(words(t) == seq![t.take(k)] + words(t.skip(k)));
            assert(words(s) == seq![s.take(k)] + words(s.skip(k)));
        }
    }
}

/// A field code after the command line is dropped: for any command line
/// without `%`, adding a space and any of `%f %F %u %U %i %c %k` cleans to
/// the line itself, so the program and its arguments are those of the line
/// alone.
pub proof fn lemma_field_code_dropped(a: Seq<char>, c: Seq<char>)
    requires
        no_percent(a),
        is_field_code(c),
    ensures
        exec_without_codes(a + seq![' '] + c) == a + seq![' '],
        exec_without_codes(a) == a,
        words(exec_without_codes(a + seq![' '] + c)) == words(exec_without_codes(a)),
{
    reveal_strlit("%f");
    reveal_strlit("%F");
    reveal_strlit("%u");
    reveal_strlit("%U");
    reveal_strlit("%i");
    reveal_strlit("%c");
    reveal_strlit("%k");
    let e = Seq::<char>::empty();
    let a1 = a + seq![' '];
    assert(no_percent(a1)) by {
        assert forall|i: int| 0 <= i < a1.len() implies a1[i] != '%' by {
            if i < a.len() {
                assert(a1[i] == a[i]);
            }
        }
    }
    assert(a + seq![' '] + c == a1 + c);
    assert(a1 + e =~= a1);
    assert(a + e =~= a);
    lemma_remove_code(c, "%f"@);
    lemma_remove_code(c, "%F"@);
    lemma_remove_code(c, "%u"@);
    lemma_remove_code(c, "%U"@);
    lemma_remove_code(c, "%i"@);
    lemma_remove_code(c, "%c"@);
    lemma_remove_code(c, "%k"@);
    lemma_remove_after_plain(a1, c, "%f"@);
    lemma_remove_after_plain(a1, remove_all(c, "%f"@), "%F"@);
    let x1 = remove_all(remove_all(c, "%f"@), "%F"@);
    lemma_remove_after_plain(a1, x1, "%u"@);
    let x2 = remove_all(x1, "%u"@);
    lemma_remove_after_plain(a1, x2, "%U"@);
    let x3 = remove_all(x2, "%U"@);
    lemma_remove_after_plain(a1, x3, "%i"@);
    let x4 = remove_all(x3, "%i"@);
    lemma_remove_after_plain(a1, x4, "%c"@);
    let x5 = remove_all(x4, "%c"@);
    lemma_remove_after_plain(a1, x5, "%k"@);
    assert(remove_all(c, "%f"@) == c || remove_all(c, "%f"@) == e);
    assert(x1 == c || x1 == e);
    assert(x2 == c || x2 == e);
    assert(x3 == c || x3 == e);
    assert(x4 == c || x4 == e);
    assert(x5 == c || x5 == e);
    assert(remove_all(x5, "%k"@) == e);
    // the line alone
    lemma_remove_after_plain(a, e, "%f"@);
    lemma_remove_after_plain(a, e, "%F"@);
    lemma_remove_after_plain(a, e, "%u"@);
    lemma_remove_after_plain(a, e, "%U"@);
    lemma_remove_after_plain(a, e, "%i"@);
    lemma_remove_after_plain(a, e, "%c"@);
    lemma_remove_after_plain(a, e, "%k"@);
    lemma_words_trailing_space(a);
}

} // verus!

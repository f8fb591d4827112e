use vstd::prelude::*;
use crate::desktop::DesktopEntry;
use crate::text::{chars_of, contains, contains_chars, lowercase, lowercase_of};

verus! {

/// How many result rows fit below the search field.
pub const VISIBLE_ROWS: usize = 12;

/// Whether an entry matches a search: its name or its app id contains the
/// query, all compared in lower case.
pub open spec fn matches_query(e: DesktopEntry, query: Seq<char>) -> bool {
    contains(lowercase_of(e.name@), lowercase_of(query)) || contains(
        lowercase_of(e.app_id@),
        lowercase_of(query),
    )
}

/// The positions of the entries that match, in order.
pub open spec fn filter_of(entries: Seq<DesktopEntry>, query: Seq<char>) -> Seq<usize>
    decreases entries.len(),
{
    if entries.len() == 0 {
        Seq::empty()
    } else {
        let rest = filter_of(entries.drop_last(), query);
        if matches_query(entries.last(), query) {
            rest.push((entries.len() - 1) as usize)
        } else {
            rest
        }
    }
}

/// The first visible row once `selected` is scrolled into view of `vis` rows.
pub open spec fn scrolled_to(selected: usize, offset: usize, vis: usize) -> usize {
    if selected < offset {
        selected
    } else if selected >= offset + vis && vis > 0 {
        (selected + 1 - vis) as usize
    } else {
        offset
    }
}

/// Whether a character is a control character (general category Cc).
pub open spec fn is_control_char(c: char) -> bool {
    (c as u32) <= 0x1f || (0x7f <= (c as u32) && (c as u32) <= 0x9f)
}

/// The typed characters that are not control characters.
pub open spec fn printable(s: Seq<char>) -> Seq<char>
    decreases s.len(),
{
    if s.len() == 0 {
        Seq::empty()
    } else if is_control_char(s.last()) {
        printable(s.drop_last())
    } else {
        printable(s.drop_last()).push(s.last())
    }
}

/// A key press in the launcher.
#[derive(Debug, Clone)]
pub enum LauncherKey {
    Escape,
    Enter,
    Up,
    Down,
    Backspace,
    /// Any other key, with the text it types, if any.
    Other { text: Option<String> },
}

/// What a held arrow key repeats.
#[derive(Debug, Clone, Copy, PartialEq, Eq, Structural)]
pub enum RepeatAction {
    Up,
    Down,
}

/// What happens to key repeat after a key press.
#[derive(Debug, Clone, Copy, PartialEq, Eq, Structural)]
pub enum RepeatChange {
    Stop,
    Start { action: RepeatAction },
}

/// What the window does after an input: quit, start an entry, redraw.
#[derive(Debug, Clone, Copy, PartialEq, Eq, Structural)]
pub struct LauncherOutcome {
    pub quit: bool,
    /// The entry to start (its position among all entries).
    pub launch: Option<usize>,
    pub redraw: bool,
}

/// The launcher's list state: all entries, the query, the positions of the
/// entries shown, the selected and first visible of those, and the hovered
/// row.
pub struct Launcher {
    pub entries: Vec<DesktopEntry>,
    pub query: Vec<char>,
    pub filtered: Vec<usize>,
    pub selected: usize,
    pub scroll_offset: usize,
    pub hovered_row: Option<usize>,
}

/// The entry that Enter or a click starts: the selected row's entry.
pub open spec fn selected_entry(filtered: Seq<usize>, selected: usize) -> Option<usize> {
    if selected < filtered.len() {
        Some(filtered[selected as int])
    } else {
        None
    }
}

/// The selection and first visible row after moving up from `selected`:
/// one row up, scrolled into view, when there is a row above; else as they
/// were.
pub open spec fn moved_up(selected: usize, offset: usize) -> (usize, usize) {
    if selected > 0 {
        ((selected - 1) as usize, scrolled_to((selected - 1) as usize, offset, VISIBLE_ROWS))
    } else {
        (selected, offset)
    }
}

/// The selection and first visible row after moving down from `selected`
/// among `len` rows: one row down, scrolled into view, when there is a row
/// below; else as they were.
pub open spec fn moved_down(selected: usize, offset: usize, len: nat) -> (usize, usize) {
    if selected + 1 < len {
        ((selected + 1) as usize, scrolled_to((selected + 1) as usize, offset, VISIBLE_ROWS))
    } else {
        (selected, offset)
    }
}

impl Launcher {
    /// Every shown position names an entry.
    pub open spec fn well_formed(&self) -> bool {
        forall|k: int| 0 <= k < self.filtered@.len() ==> #[trigger] self.filtered@[k] < self.entries@.len()
    }

    /// A launcher over `entries`, all shown, the first selected.
    pub fn new(entries: Vec<DesktopEntry>) -> (l: Launcher)
        ensures
            l.well_formed(),
            l.entries@ == entries@,
            l.query@ == Seq::<char>::empty(),
            l.filtered@.len() == entries@.len(),
            forall|k: int| 0 <= k < entries@.len() ==> #[trigger] l.filtered@[k] == k,
            l.selected == 0,
            l.scroll_offset == 0,
            l.hovered_row is None,
    {
        let mut filtered: Vec<usize> = Vec::new();
        let mut i: usize = 0;
        while i < entries.len()
            invariant
                i <= entries@.len(),
                filtered@.len() == i,
                forall|k: int| 0 <= k < i ==> #[trigger] filtered@[k] == k,
            decreases entries.len() - i,
        {
            filtered.push(i);
            i += 1;
        }
        Launcher {
            entries,
            query: Vec::new(),
            filtered,
            selected: 0,
            scroll_offset: 0,
            hovered_row: None,
        }
    }

    /// Re-filters the entries by the query and selects the first result.
    pub fn update_filter(&mut self)
        ensures
            final(self).well_formed(),
            final(self).entries@ == old(self).entries@,
            final(self).query@ == old(self).query@,
            final(self).filtered@ == filter_of(old(self).entries@, old(self).query@),
            final(self).selected == 0,
            final(self).scroll_offset == 0,
            final(self).hovered_row == old(self).hovered_row,
    {
        let qs = crate::text::string_of(self.query.as_slice());
        let q = lowercase(qs.as_str());
        let qc = chars_of(q.as_str());
        let mut out: Vec<usize> = Vec::new();
        let mut i: usize = 0;
        while i < self.entries.len()
            invariant
                i <= self.entries@.len(),
                qs@ == self.query@,
                qc@ == lowercase_of(self.query@),
                out@ == filter_of(self.entries@.take(i as int), self.query@),
                forall|k: int| 0 <= k < out@.len() ==> #[trigger] out@[k] < i,
            decreases self.entries.len() - i,
        {
            assert(self.entries@.take(i + 1).drop_last() =~= self.entries@.take(i as int));
            let e = &self.entries[i];
            let name = lowercase(e.name.as_str());
            let id = lowercase(e.app_id.as_str());
            let nc = chars_of(name.as_str());
            let ic = chars_of(id.as_str());
            if contains_chars(nc.as_slice(), qc.as_slice()) || contains_chars(ic.as_slice(), qc.as_slice()) {
                out.push(i);
            }
            i += 1;
        }
        assert(self.entries@.take(self.entries@.len() as int) =~= self.entries@);
        self.filtered = out;
        self.selected = 0;
        self.scroll_offset = 0;
    }

    /// How many result rows fit below the search field.
    pub fn visible_rows(&self) -> (n: usize)
        ensures
            n == VISIBLE_ROWS,
    {
        VISIBLE_ROWS
    }

    /// Scrolls so that the selected row is visible.
    pub fn clamp_scroll(&mut self)
        ensures
            final(self).scroll_offset == scrolled_to(
                old(self).selected,
                old(self).scroll_offset,
                VISIBLE_ROWS,
            ),
            final(self).selected == old(self).selected,
            final(self).entries@ == old(self).entries@,
            final(self).query@ == old(self).query@,
            final(self).filtered@ == old(self).filtered@,
            final(self).hovered_row == old(self).hovered_row,
    {
        let vis = self.visible_rows();
        if self.selected < self.scroll_offset {
            self.scroll_offset = self.selected;
        } else if self.selected >= self.scroll_offset && self.selected - self.scroll_offset >= vis
            && vis > 0 {
            self.scroll_offset = self.selected - vis + 1;
        }
    }

    /// The entry to start for the selected row, if there is one.
    pub fn selected_entry(&self) -> (r: Option<usize>)
        ensures
            r == selected_entry(self.filtered@, self.selected),
    {
        if self.selected < self.filtered.len() {
            Some(self.filtered[self.selected])
        } else {
            None
        }
    }

    /// Moves the selection one row up, if it can; whether it moved.
    pub fn move_up(&mut self) -> (moved: bool)
        ensures
            moved == (old(self).selected > 0),
            moved ==> final(self).selected == old(self).selected - 1 && final(self).scroll_offset
                == scrolled_to(
                (old(self).selected - 1) as usize,
                old(self).scroll_offset,
                VISIBLE_ROWS,
            ),
            !moved ==> final(self).selected == old(self).selected && final(self).scroll_offset
                == old(self).scroll_offset,
            final(self).entries@ == old(self).entries@,
            final(self).query@ == old(self).query@,
            final(self).filtered@ == old(self).filtered@,
            final(self).hovered_row == old(self).hovered_row,
    {
        if self.selected > 0 {
            self.selected -= 1;
            self.clamp_scroll();
            true
        } else {
            false
        }
    }

    /// Moves the selection one row down, if there is a row below; whether it
    /// moved.
    pub fn move_down(&mut self) -> (moved: bool)
        ensures
            moved == (old(self).selected + 1 < old(self).filtered@.len()),
            moved ==> final(self).selected == old(self).selected + 1 && final(self).scroll_offset
                == scrolled_to(
                (old(self).selected + 1) as usize,
                old(self).scroll_offset,
                VISIBLE_ROWS,
            ),
            !moved ==> final(self).selected == old(self).selected && final(self).scroll_offset
                == old(self).scroll_offset,
            final(self).entries@ == old(self).entries@,
            final(self).query@ == old(self).query@,
            final(self).filtered@ == old(self).filtered@,
            final(self).hovered_row == old(self).hovered_row,
    {
        if self.selected < self.filtered.len() && self.filtered.len() - self.selected > 1 {
            self.selected += 1;
            self.clamp_scroll();
            true
        } else {
            false
        }
    }

    /// A key press: Escape quits, Enter starts the selected entry and quits,
    /// the arrows move the selection and start repeating, Backspace drops the
    /// last typed character and re-filters, and typed text (control
    /// characters dropped) extends the query and re-filters. Any key but an
    /// arrow stops key repeat.
    pub fn press_key(&mut self, key: LauncherKey) -> (r: (LauncherOutcome, RepeatChange))
        requires
            old(self).well_formed(),
        ensures
            final(self).well_formed(),
            final(self).entries@ == old(self).entries@,
            match key {
                LauncherKey::Escape => r.0 == LauncherOutcome {
                    quit: true,
                    launch: None,
                    redraw: false,
                } && r.1 == RepeatChange::Stop && final(self).query@ == old(self).query@,
                LauncherKey::Enter => r.0 == LauncherOutcome {
                    quit: true,
                    launch: selected_entry(old(self).filtered@, old(self).selected),
                    redraw: false,
                } && r.1 == RepeatChange::Stop,
                LauncherKey::Up => r.0 == LauncherOutcome {
                    quit: false,
                    launch: None,
                    redraw: old(self).selected > 0,
                } && r.1 == (RepeatChange::Start { action: RepeatAction::Up })
                    && final(self).filtered@ == old(self).filtered@ && final(self).query@ == old(
                    self,
                ).query@ && (final(self).selected, final(self).scroll_offset) == moved_up(
                    old(self).selected,
                    old(self).scroll_offset,
                ),
                LauncherKey::Down => r.0 == LauncherOutcome {
                    quit: false,
                    launch: None,
                    redraw: old(self).selected + 1 < old(self).filtered@.len(),
                } && r.1 == (RepeatChange::Start { action: RepeatAction::Down })
                    && final(self).filtered@ == old(self).filtered@ && final(self).query@ == old(
                    self,
                ).query@ && (final(self).selected, final(self).scroll_offset) == moved_down(
                    old(self).selected,
                    old(self).scroll_offset,
                    old(self).filtered@.len(),
                ),
                LauncherKey::Backspace => r.0 == LauncherOutcome {
                    quit: false,
                    launch: None,
                    redraw: true,
                } && r.1 == RepeatChange::Stop && final(self).query@ == (if old(self).query@.len()
                    > 0 {
                    old(self).query@.drop_last()
                } else {
                    old(self).query@
                }) && final(self).filtered@ == filter_of(old(self).entries@, final(self).query@)
                    && final(self).selected == 0 && final(self).scroll_offset == 0,
                LauncherKey::Other { text } => r.1 == RepeatChange::Stop && match text {
                    Some(t) if printable(t@).len() > 0 => r.0 == LauncherOutcome {
                        quit: false,
                        launch: None,
                        redraw: true,
                    } && final(self).query@ == old(self).query@ + printable(t@)
                        && final(self).filtered@ == filter_of(old(self).entries@, final(self).query@)
                        && final(self).selected == 0 && final(self).scroll_offset == 0,
                    _ => r.0 == LauncherOutcome { quit: false, launch: None, redraw: false }
                        && final(self).query@ == old(self).query@ && final(self).filtered@ == old(
                        self,
                    ).filtered@ && final(self).selected == old(self).selected
                        && final(self).scroll_offset == old(self).scroll_offset,
                },
            },
    {
        match key {
            LauncherKey::Escape => (
                LauncherOutcome { quit: true, launch: None, redraw: false },
                RepeatChange::Stop,
            ),
            LauncherKey::Enter => {
                let launch = self.selected_entry();
                (LauncherOutcome { quit: true, launch, redraw: false }, RepeatChange::Stop)
            },
            LauncherKey::Up => {
                let moved = self.move_up();
                (
                    LauncherOutcome { quit: false, launch: None, redraw: moved },
                    RepeatChange::Start { action: RepeatAction::Up },
                )
            },
            LauncherKey::Down => {
                let moved = self.move_down();
                (
                    LauncherOutcome { quit: false, launch: None, redraw: moved },
                    RepeatChange::Start { action: RepeatAction::Down },
                )
            },
            LauncherKey::Backspace => {
                self.query.pop();
                self.update_filter();
                (LauncherOutcome { quit: false, launch: None, redraw: true }, RepeatChange::Stop)
            },
            LauncherKey::Other { text } => {
                let none = LauncherOutcome { quit: false, launch: None, redraw: false };
                match text {
                    None => (none, RepeatChange::Stop),
                    Some(t) => {
                        let typed = printable_chars(t.as_str());
                        if typed.len() == 0 {
                            (none, RepeatChange::Stop)
                        } else {
                            let mut k: usize = 0;
                            let ghost q0 = self.query@;
                            while k < typed.len()
                                invariant
                                    k <= typed@.len(),
                                    self.query@ == q0 + typed@.take(k as int),
                                    self.entries@ == old(self).entries@,
                                decreases typed.len() - k,
                            {
                                self.query.push(typed[k]);
                                k += 1;
                                assert(self.query@ =~= q0 + typed@.take(k as int));
                            }
                            assert(typed@.take(typed@.len() as int) =~= typed@);
                            self.update_filter();
                            (
                                LauncherOutcome { quit: false, launch: None, redraw: true },
                                RepeatChange::Stop,
                            )
                        }
                    },
                }
            },
        }
    }

    /// A held arrow's repeat: moves like the key; whether to redraw.
    pub fn repeat(&mut self, action: RepeatAction) -> (redraw: bool)
        ensures
            redraw == match action {
                RepeatAction::Up => old(self).selected > 0,
                RepeatAction::Down => old(self).selected + 1 < old(self).filtered@.len(),
            },
            (final(self).selected, final(self).scroll_offset) == match action {
                RepeatAction::Up => moved_up(old(self).selected, old(self).scroll_offset),
                RepeatAction::Down => moved_down(
                    old(self).selected,
                    old(self).scroll_offset,
                    old(self).filtered@.len(),
                ),
            },
            final(self).entries@ == old(self).entries@,
            final(self).query@ == old(self).query@,
            final(self).filtered@ == old(self).filtered@,
            final(self).hovered_row == old(self).hovered_row,
    {
        match action {
            RepeatAction::Up => self.move_up(),
            RepeatAction::Down => self.move_down(),
        }
    }

    /// The pointer over result row `view_row` (counted from the first visible
    /// row; none when outside the list): the hovered row is that result, if
    /// it exists. Whether it changed, which asks for a redraw.
    pub fn hover(&mut self, view_row: Option<usize>) -> (changed: bool)
        ensures
            final(self).hovered_row == match view_row {
                Some(v) if v + old(self).scroll_offset < old(self).filtered@.len() => Some(
                    (v + old(self).scroll_offset) as usize,
                ),
                _ => None,
            },
            changed == (final(self).hovered_row != old(self).hovered_row),
            final(self).entries@ == old(self).entries@,
            final(self).query@ == old(self).query@,
            final(self).filtered@ == old(self).filtered@,
            final(self).selected == old(self).selected,
            final(self).scroll_offset == old(self).scroll_offset,
    {
        let new_hover = match view_row {
            Some(v) => if v < self.filtered.len() && self.scroll_offset < self.filtered.len() - v {
                Some(v + self.scroll_offset)
            } else {
                None
            },
            None => None,
        };
        let changed = new_hover != self.hovered_row;
        self.hovered_row = new_hover;
        changed
    }

    /// A click on result row `view_row`: when that result exists it is
    /// selected and started (the launcher then quits); else nothing happens.
    pub fn click_row(&mut self, view_row: usize) -> (r: LauncherOutcome)
        ensures
            if view_row + old(self).scroll_offset < old(self).filtered@.len() {
                &&& final(self).selected == view_row + old(self).scroll_offset
                &&& r == (LauncherOutcome {
                    quit: true,
                    launch: Some(old(self).filtered@[view_row + old(self).scroll_offset]),
                    redraw: false,
                })
            } else {
                &&& final(self).selected == old(self).selected
                &&& r == (LauncherOutcome { quit: false, launch: None, redraw: false })
            },
            final(self).entries@ == old(self).entries@,
            final(self).filtered@ == old(self).filtered@,
            final(self).scroll_offset == old(self).scroll_offset,
    {
        if view_row < self.filtered.len() && self.scroll_offset < self.filtered.len() - view_row {
            self.selected = view_row + self.scroll_offset;
            let launch = self.selected_entry();
            LauncherOutcome { quit: true, launch, redraw: false }
        } else {
            LauncherOutcome { quit: false, launch: None, redraw: false }
        }
    }

    /// A wheel step (`delta` > 0 scrolls down, < 0 up): the view moves one row
    /// when it can, dragging the selection along to stay visible. Whether it
    /// moved, which asks for a redraw.
    pub fn scroll(&mut self, delta: i32) -> (moved: bool)
        ensures
            delta > 0 && old(self).scroll_offset + VISIBLE_ROWS < old(self).filtered@.len() ==> {
                &&& moved
                &&& final(self).scroll_offset == old(self).scroll_offset + 1
                &&& final(self).selected == if old(self).selected < old(self).scroll_offset + 1 {
                    (old(self).scroll_offset + 1) as usize
                } else {
                    old(self).selected
                }
            },
            delta < 0 && old(self).scroll_offset > 0 ==> {
                &&& moved
                &&& final(self).scroll_offset == old(self).scroll_offset - 1
                &&& final(self).selected == if old(self).selected >= old(self).scroll_offset - 1
                    + VISIBLE_ROWS {
                    (old(self).scroll_offset - 1 + VISIBLE_ROWS - 1) as usize
                } else {
                    old(self).selected
                }
            },
            !(delta > 0 && old(self).scroll_offset + VISIBLE_ROWS < old(self).filtered@.len())
                && !(delta < 0 && old(self).scroll_offset > 0) ==> {
                &&& !moved
                &&& final(self).scroll_offset == old(self).scroll_offset
                &&& final(self).selected == old(self).selected
            },
            final(self).entries@ == old(self).entries@,
            final(self).query@ == old(self).query@,
            final(self).filtered@ == old(self).filtered@,
            final(self).hovered_row == old(self).hovered_row,
    {
        let vis = self.visible_rows();
        if delta > 0 && self.scroll_offset < self.filtered.len() && self.filtered.len()
            - self.scroll_offset > vis {
            self.scroll_offset += 1;
            if self.selected < self.scroll_offset {
                self.selected = self.scroll_offset;
            }
            true
        } else if delta < 0 && self.scroll_offset > 0 {
            self.scroll_offset -= 1;
            if vis > 0 && self.selected >= self.scroll_offset && self.selected - self.scroll_offset
                >= vis {
                self.selected = self.scroll_offset + vis - 1;
            }
            true
        } else {
            false
        }
    }
}

/// The characters of `s` that are not control characters.
pub fn printable_chars(s: &str) -> (r: Vec<char>)
    ensures
        r@ == printable(s@),
{
    let cs = chars_of(s);
    let mut out: Vec<char> = Vec::new();
    let mut i: usize = 0;
    while i < cs.len()
        invariant
            i <= cs@.len(),
            cs@ == s@,
            out@ == printable(cs@.take(i as int)),
        decreases cs.len() - i,
    {
        assert(cs@.take(i + 1).drop_last() =~= cs@.take(i as int));
        let c = cs[i];
        let code = c as u32;
        if !(code <= 0x1f || (0x7f <= code && code <= 0x9f)) {
            out.push(c);
        }
        i += 1;
    }
    assert(cs@.take(cs@.len() as int) =~= cs@);
    out
}

/// The interval between key repeats for a repeat rate in keys per second.
pub fn repeat_interval_ms(rate: u32) -> (ms: u64)
    ensures
        ms == 1000int / (if rate == 0 { 1int } else { rate as int }),
{
    let r: u64 = if rate == 0 { 1 } else { rate as u64 };
    1000 / r
}

/// Scrolling to the selection makes it visible: it lies within the visible
/// rows from the new first row on.
pub proof fn lemma_scroll_shows_selection(selected: usize, offset: usize)
    ensures
        scrolled_to(selected, offset, VISIBLE_ROWS) <= selected < scrolled_to(
            selected,
            offset,
            VISIBLE_ROWS,
        ) + VISIBLE_ROWS,
{
}


proof fn lemma_filter_bounds(entries: Seq<DesktopEntry>, query: Seq<char>)
    requires
        entries.len() <= usize::MAX,
    ensures
        forall|j: int|
            0 <= j < filter_of(entries, query).len() ==> #[trigger] filter_of(entries, query)[j]
                < entries.len(),
    decreases entries.len(),
{
    if entries.len() > 0 {
        lemma_filter_bounds(entries.drop_last(), query);
        let rest = filter_of(entries.drop_last(), query);
        if matches_query(entries.last(), query) {
            let f = rest.push((entries.len() - 1) as usize);
            assert forall|j: int| 0 <= j < f.len() implies #[trigger] f[j] < entries.len() by {
                if j < rest.len() {
                    assert(f[j] == rest[j]);
                }
            }
        }
    }
}

/// The search ignores case on the name and on the app id alike: an entry is
/// listed exactly when its name or its app id, lower-cased, contains the
/// lower-cased query.
pub proof fn lemma_filter_ignores_case(entries: Seq<DesktopEntry>, query: Seq<char>, k: int)
    requires
        0 <= k < entries.len(),
        entries.len() <= usize::MAX,
    ensures
        filter_of(entries, query).contains(k as usize) <==> (contains(
            lowercase_of(entries[k].name@),
            lowercase_of(query),
        ) || contains(lowercase_of(entries[k].app_id@), lowercase_of(query))),
    decreases entries.len(),
{
    let n = entries.len();
    let rest = filter_of(entries.drop_last(), query);
    lemma_filter_bounds(entries.drop_last(), query);
    if k == n - 1 {
        assert(!rest.contains(k as usize));
        if matches_query(entries.last(), query) {
            assert(filter_of(entries, query) == rest.push(k as usize));
            assert(rest.push(k as usize)[rest.len() as int] == k as usize);
        }
    } else {
        lemma_filter_ignores_case(entries.drop_last(), query, k);
        assert(entries.drop_last()[k] == entries[k]);
        if matches_query(entries.last(), query) {
            let f = rest.push((n - 1) as usize);
            assert(f.contains(k as usize) ==> rest.contains(k as usize)) by {
                if f.contains(k as usize) {
                    let j = choose|j: int| 0 <= j < f.len() && f[j] == k as usize;
                    if j < rest.len() {
                        assert(f[j] == rest[j]);
                    }
                }
            }
            assert(rest.contains(k as usize) ==> f.contains(k as usize)) by {
                if rest.contains(k as usize) {
                    let j = choose|j: int| 0 <= j < rest.len() && rest[j] == k as usize;
                    assert(f[j] == rest[j]);
                }
            }
        }
    }
}

} // verus!

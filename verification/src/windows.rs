use vstd::prelude::*;
use vstd::string::StringExecFns;
use crate::sort::{SortKey, is_stable_order, sort_by_keys, stable_order};
use crate::text::{ascii_lowercase, ascii_lowercase_chars, chars_of, same_chars, string_of};

verus! {

/// A window tracked in the taskbar.
#[derive(Debug, Clone)]
pub struct WindowEntry {
    pub id: u64,
    pub title: String,
    /// e.g. "firefox", "foot", "discord"
    pub app_id: String,
    pub workspace_idx: u8,
    pub is_focused: bool,
}

/// The fields of a window entry as plain values.
pub open spec fn window_view(w: WindowEntry) -> (u64, Seq<char>, Seq<char>, u8, bool) {
    (w.id, w.title@, w.app_id@, w.workspace_idx, w.is_focused)
}

fn window(id: u64, title: &str, app_id: &str, workspace_idx: u8, is_focused: bool) -> (w:
    WindowEntry)
    ensures
        window_view(w) == (id, title@, app_id@, workspace_idx, is_focused),
{
    WindowEntry {
        id,
        title: String::from_str(title),
        app_id: String::from_str(app_id),
        workspace_idx,
        is_focused,
    }
}

/// The sample windows shown when the compositor cannot be reached.
pub fn dummy_windows() -> (v: Vec<WindowEntry>)
    ensures
        v@.len() == 3,
        window_view(v@[0]) == (1u64, "Mozilla Firefox"@, "firefox"@, 2u8, false),
        window_view(v@[1]) == (2u64, "foot"@, "foot"@, 1u8, true),
        window_view(v@[2]) == (3u64, "nvim"@, "nvim"@, 3u8, false),
{
    let mut v: Vec<WindowEntry> = Vec::new();
    v.push(window(1, "Mozilla Firefox", "firefox", 2, false));
    v.push(window(2, "foot", "foot", 1, true));
    v.push(window(3, "nvim", "nvim", 3, false));
    v
}

/// The workspace index last recorded for workspace `id` in `pairs` of
/// (workspace id, index), as a map collected from them keeps it.
pub open spec fn last_index(pairs: Seq<(u64, u8)>, id: u64) -> Option<u8>
    decreases pairs.len(),
{
    if pairs.len() == 0 {
        None
    } else if pairs.last().0 == id {
        Some(pairs.last().1)
    } else {
        last_index(pairs.drop_last(), id)
    }
}

/// The index of the workspace a window is on, or `missing` when the window
/// has no workspace or it is not among `pairs`.
pub open spec fn index_or(pairs: Seq<(u64, u8)>, id: Option<u64>, missing: u8) -> u8 {
    match id {
        Some(i) => match last_index(pairs, i) {
            Some(x) => x,
            None => missing,
        },
        None => missing,
    }
}

/// Looks up the index of a window's workspace among (workspace id, index)
/// pairs; `missing` when there is none.
pub fn workspace_index(pairs: &Vec<(u64, u8)>, id: Option<u64>, missing: u8) -> (r: u8)
    ensures
        r == index_or(pairs@, id, missing),
{
    match id {
        None => missing,
        Some(wanted) => {
            let mut found: Option<u8> = None;
            let mut i: usize = 0;
            while i < pairs.len()
                invariant
                    i <= pairs@.len(),
                    found == last_index(pairs@.take(i as int), wanted),
                decreases pairs.len() - i,
            {
                assert(pairs@.take(i + 1).drop_last() =~= pairs@.take(i as int));
                if pairs[i].0 == wanted {
                    found = Some(pairs[i].1);
                }
                i += 1;
            }
            assert(pairs@.take(pairs@.len() as int) =~= pairs@);
            match found {
                Some(x) => x,
                None => missing,
            }
        },
    }
}

/// Taskbar order: the focused window first, then by workspace index.
pub open spec fn taskbar_key(w: WindowEntry) -> SortKey {
    (if w.is_focused { 0u64 } else { 1u64 }, w.workspace_idx as u64, 0u64)
}

pub open spec fn taskbar_keys(ws: Seq<WindowEntry>) -> Seq<SortKey> {
    Seq::new(ws.len(), |i: int| taskbar_key(ws[i]))
}

/// The windows in taskbar order: focused first, then by workspace index,
/// windows that tie keeping their order.
pub fn order_taskbar(windows: Vec<WindowEntry>) -> (r: Vec<WindowEntry>)
    ensures
        exists|order: Seq<usize>|
            is_stable_order(taskbar_keys(windows@), order) && r@.len() == order.len() && forall|
                p: int,
            |
                0 <= p < r@.len() ==> #[trigger] r@[p] == windows@[order[p] as int],
{
    let mut keys: Vec<SortKey> = Vec::new();
    let mut i: usize = 0;
    while i < windows.len()
        invariant
            i <= windows@.len(),
            keys@ == taskbar_keys(windows@).take(i as int),
        decreases windows.len() - i,
    {
        let w = &windows[i];
        let k: SortKey = (if w.is_focused { 0u64 } else { 1u64 }, w.workspace_idx as u64, 0u64);
        keys.push(k);
        i += 1;
        assert(keys@ =~= taskbar_keys(windows@).take(i as int));
    }
    assert(keys@ =~= taskbar_keys(windows@));
    sort_by_keys(windows, &keys)
}

/// The key by which the bar orders windows by position: workspace index
/// (`u8::MAX` when unknown), then column and tile in the scrolling layout
/// (`usize::MAX` when not tiled).
pub open spec fn position_key_of(workspace_idx: u8, pos: Option<(usize, usize)>) -> SortKey {
    match pos {
        Some((col, tile)) => (workspace_idx as u64, col as u64, tile as u64),
        None => (workspace_idx as u64, usize::MAX as u64, usize::MAX as u64),
    }
}

pub fn position_key(workspace_idx: u8, pos: Option<(usize, usize)>) -> (k: SortKey)
    ensures
        k == position_key_of(workspace_idx, pos),
{
    match pos {
        Some((col, tile)) => (workspace_idx as u64, col as u64, tile as u64),
        None => (workspace_idx as u64, usize::MAX as u64, usize::MAX as u64),
    }
}

/// Whether a window on workspace `ws` is shown on the bar of an output whose
/// workspaces are `output_ws`: a window without a workspace always is.
pub open spec fn shown_on(ws: Option<u64>, output_ws: Seq<u64>) -> bool {
    match ws {
        Some(id) => output_ws.contains(id),
        None => true,
    }
}

/// The positions of the windows shown on an output, in their order.
pub open spec fn shown_positions(window_ws: Seq<Option<u64>>, output_ws: Seq<u64>) -> Seq<usize>
    decreases window_ws.len(),
{
    if window_ws.len() == 0 {
        Seq::empty()
    } else {
        let rest = shown_positions(window_ws.drop_last(), output_ws);
        if shown_on(window_ws.last(), output_ws) {
            rest.push((window_ws.len() - 1) as usize)
        } else {
            rest
        }
    }
}

/// The sort key of each shown window: its workspace index, 255 when unknown.
pub open spec fn shown_keys(
    window_ws: Seq<Option<u64>>,
    sel: Seq<usize>,
    pairs: Seq<(u64, u8)>,
) -> Seq<SortKey> {
    Seq::new(sel.len(), |k: int| (index_or(pairs, window_ws[sel[k] as int], 255) as u64, 0u64, 0u64))
}

/// The windows of the bottom bar of one output: of the windows (given by their
/// workspace ids, in the compositor's order), those on this output's
/// workspaces `output_ws` or on none, ordered stably by workspace index. The
/// result lists their positions.
pub fn taskbar_windows(
    window_ws: &Vec<Option<u64>>,
    output_ws: &Vec<u64>,
    pairs: &Vec<(u64, u8)>,
) -> (r: Vec<usize>)
    ensures
        exists|order: Seq<usize>|
            #[trigger] is_stable_order(
                shown_keys(window_ws@, shown_positions(window_ws@, output_ws@), pairs@),
                order,
            ) && r@.len() == order.len() && forall|p: int|
                0 <= p < r@.len() ==> #[trigger] r@[p] == shown_positions(window_ws@, output_ws@)[order[p] as int],
{
    let mut sel: Vec<usize> = Vec::new();
    let mut keys: Vec<SortKey> = Vec::new();
    let mut i: usize = 0;
    while i < window_ws.len()
        invariant
            i <= window_ws@.len(),
            sel@ == shown_positions(window_ws@.take(i as int), output_ws@),
            forall|k: int| 0 <= k < sel@.len() ==> #[trigger] sel@[k] < i,
            keys@ == shown_keys(window_ws@, sel@, pairs@),
        decreases window_ws.len() - i,
    {
        assert(window_ws@.take(i + 1).drop_last() =~= window_ws@.take(i as int));
        let shown = match window_ws[i] {
            Some(id) => {
                let mut hit = false;
                let mut j: usize = 0;
                while j < output_ws.len()
                    invariant
                        j <= output_ws@.len(),
                        hit == output_ws@.take(j as int).contains(id),
                    decreases output_ws.len() - j,
                {
                    let ghost before = output_ws@.take(j as int);
                    let ghost after = output_ws@.take(j + 1);
                    assert(after =~= before.push(output_ws@[j as int]));
                    if output_ws[j] == id {
                        hit = true;
                        assert(after[j as int] == id);
                    } else {
                        assert(after.contains(id) ==> before.contains(id)) by {
                            if after.contains(id) {
                                let k = choose|k: int| 0 <= k < after.len() && after[k] == id;
                                assert(before[k] == id);
                            }
                        }
                        assert(before.contains(id) ==> after.contains(id)) by {
                            if before.contains(id) {
                                let k = choose|k: int| 0 <= k < before.len() && before[k] == id;
                                assert(after[k] == id);
                            }
                        }
                    }
                    j += 1;
                }
                assert(output_ws@.take(output_ws@.len() as int) =~= output_ws@);
                hit
            },
            None => true,
        };
        if shown {
            let idx = workspace_index(pairs, window_ws[i], 255);
            sel.push(i);
            keys.push((idx as u64, 0u64, 0u64));
        }
        i += 1;
        assert(keys@ =~= shown_keys(window_ws@, sel@, pairs@));
    }
    assert(window_ws@.take(window_ws@.len() as int) =~= window_ws@);
    let order = stable_order(&keys);
    let mut r: Vec<usize> = Vec::new();
    let mut p: usize = 0;
    while p < order.len()
        invariant
            p <= order@.len(),
            is_stable_order(keys@, order@),
            sel@.len() == keys@.len(),
            r@.len() == p,
            forall|q: int| 0 <= q < p ==> #[trigger] r@[q] == sel@[order@[q] as int],
        decreases order.len() - p,
    {
        r.push(sel[order[p]]);
        p += 1;
    }
    r
}

/// The label of a window block: the app id alone when the title is empty or
/// equals it ignoring ASCII case, else "app - title".
pub open spec fn window_label_of(app_id: Seq<char>, title: Seq<char>) -> Seq<char> {
    if title.len() == 0 || ascii_lowercase(title) == ascii_lowercase(app_id) {
        app_id
    } else {
        app_id + " - "@ + title
    }
}

pub fn window_label(app_id: &str, title: &str) -> (r: String)
    ensures
        r@ == window_label_of(app_id@, title@),
{
    let a = chars_of(app_id);
    let t = chars_of(title);
    let la = ascii_lowercase_chars(a.as_slice());
    let lt = ascii_lowercase_chars(t.as_slice());
    if t.len() == 0 || same_chars(lt.as_slice(), la.as_slice()) {
        String::from_str(app_id)
    } else {
        let mut out = String::from_str(app_id);
        out.append(" - ");
        out.append(title);
        out
    }
}

} // verus!

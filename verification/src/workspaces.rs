use vstd::prelude::*;
use crate::sort::{SortKey, is_stable_order, sort_by_keys};
use crate::json::{
    json_array_len_lookup, json_bool_lookup, json_pointer_array_len, json_pointer_bool,
    json_pointer_u64, json_u64_lookup,
};
use crate::text::{chars_of, decimal, decimal_of, push_all, same_chars, string_of};

verus! {

/// Workspace state from the compositor.
#[derive(Debug, Clone, Copy)]
pub struct Workspace {
    pub id: u64,
    /// 1-9
    pub idx: u8,
    pub is_active: bool,
    pub has_windows: bool,
}

/// The sample workspaces 1 to 9 shown when the compositor cannot be reached:
/// the first active, the first three holding windows.
pub fn dummy_workspaces() -> (v: Vec<Workspace>)
    ensures
        v@.len() == 9,
        forall|k: int|
            0 <= k < 9 ==> {
                let w = #[trigger] v@[k];
                &&& w.id == k + 1
                &&& w.idx == k + 1
                &&& w.is_active == (k == 0)
                &&& w.has_windows == (k < 3)
            },
{
    let mut v: Vec<Workspace> = Vec::new();
    let mut i: u8 = 1;
    while i <= 9
        invariant
            1 <= i <= 10,
            v@.len() == i - 1,
            forall|k: int|
                0 <= k < i - 1 ==> {
                    let w = #[trigger] v@[k];
                    &&& w.id == k + 1
                    &&& w.idx == k + 1
                    &&& w.is_active == (k == 0)
                    &&& w.has_windows == (k < 3)
                },
        decreases 10 - i,
    {
        v.push(Workspace { id: i as u64, idx: i, is_active: i == 1, has_windows: i <= 3 });
        i += 1;
    }
    v
}

/// Where the compositor's reply to a `Workspaces` request lists them.
pub open spec fn workspaces_pointer() -> Seq<char> {
    "/Ok/Workspaces"@
}

/// The JSON Pointer to `field` of the workspace at position `i` of the reply.
pub open spec fn workspace_field(i: nat, field: Seq<char>) -> Seq<char> {
    "/Ok/Workspaces/"@ + decimal(i) + "/"@ + field
}

/// The workspace at position `i` of the reply: its `id`, its `idx` (which
/// must fit in a `u8`), `is_active`, and whether it has an active window
/// (`active_window_id` is a number).
pub open spec fn reply_workspace(text: Seq<char>, i: nat) -> Option<Workspace> {
    match (
        json_pointer_u64(text, workspace_field(i, "id"@)),
        json_pointer_u64(text, workspace_field(i, "idx"@)),
        json_pointer_bool(text, workspace_field(i, "is_active"@)),
    ) {
        (Some(Some(id)), Some(Some(idx)), Some(Some(active))) => if idx <= 255 {
            Some(
                Workspace {
                    id,
                    idx: idx as u8,
                    is_active: active,
                    has_windows: json_pointer_u64(text, workspace_field(i, "active_window_id"@))
                        matches Some(Some(_)),
                },
            )
        } else {
            None
        },
        _ => None,
    }
}

/// The workspaces a reply lists, in its order, when it lists them and each
/// one reads.
pub open spec fn reply_workspaces(text: Seq<char>) -> Option<Seq<Workspace>> {
    match json_pointer_array_len(text, workspaces_pointer()) {
        Some(Some(n)) => if forall|i: nat| i < n ==> (#[trigger] reply_workspace(text, i)) is Some {
            Some(Seq::new(n, |i: int| reply_workspace(text, i as nat)->0))
        } else {
            None
        },
        _ => None,
    }
}

/// The nine sample workspaces.
pub open spec fn is_sample(v: Seq<Workspace>) -> bool {
    &&& v.len() == 9
    &&& forall|k: int|
        0 <= k < 9 ==> {
            let w = #[trigger] v[k];
            &&& w.id == k + 1
            &&& w.idx == k + 1
            &&& w.is_active == (k == 0)
            &&& w.has_windows == (k < 3)
        }
}

fn field_pointer(i: u64, field: &str) -> (p: String)
    ensures
        p@ == workspace_field(i as nat, field@),
{
    let mut v = chars_of("/Ok/Workspaces/");
    let d = decimal_of(i);
    push_all(&mut v, d.as_slice());
    let slash = chars_of("/");
    push_all(&mut v, slash.as_slice());
    let f = chars_of(field);
    push_all(&mut v, f.as_slice());
    string_of(v.as_slice())
}

fn read_workspace(json: &str, i: u64) -> (r: Option<Workspace>)
    ensures
        r == reply_workspace(json@, i as nat),
{
    let id = json_u64_lookup(json, field_pointer(i, "id").as_str());
    let idx = json_u64_lookup(json, field_pointer(i, "idx").as_str());
    let active = json_bool_lookup(json, field_pointer(i, "is_active").as_str());
    let window = json_u64_lookup(json, field_pointer(i, "active_window_id").as_str());
    match (id, idx, active) {
        (Some(Some(id)), Some(Some(idx)), Some(Some(active))) => {
            if idx <= 255 {
                let has_windows = match window {
                    Some(Some(_)) => true,
                    _ => false,
                };
                Some(Workspace { id, idx: idx as u8, is_active: active, has_windows })
            } else {
                None
            }
        },
        _ => None,
    }
}

/// The workspaces of a compositor reply to a `Workspaces` request, sorted by
/// index (ties keeping the reply's order); the sample workspaces when the
/// reply does not read.
pub fn parse_workspaces(json: &str) -> (v: Vec<Workspace>)
    ensures
        match reply_workspaces(json@) {
            Some(ws) => exists|order: Seq<usize>|
                #[trigger] is_stable_order(idx_keys(ws), order) && v@.len() == order.len()
                    && forall|p: int| 0 <= p < v@.len() ==> #[trigger] v@[p] == ws[order[p] as int],
            None => is_sample(v@),
        },
{
    let n = match json_array_len_lookup(json, "/Ok/Workspaces") {
        Some(Some(n)) => n,
        _ => {
            return dummy_workspaces();
        },
    };
    let mut list: Vec<Workspace> = Vec::new();
    let mut keys: Vec<SortKey> = Vec::new();
    let mut i: usize = 0;
    while i < n
        invariant
            i <= n,
            json_pointer_array_len(json@, workspaces_pointer()) == Some(Some(n as nat)),
            list@.len() == i,
            forall|k: int| 0 <= k < i ==> reply_workspace(json@, k as nat) == Some(#[trigger] list@[k]),
            keys@ == idx_keys(list@),
        decreases n - i,
    {
        match read_workspace(json, i as u64) {
            Some(w) => {
                list.push(w);
                keys.push((w.idx as u64, 0u64, 0u64));
            },
            None => {
                assert(!(forall|j: nat| j < n ==> (#[trigger] reply_workspace(json@, j)) is Some));
                return dummy_workspaces();
            },
        }
        i += 1;
        assert(keys@ =~= idx_keys(list@));
    }
    proof {
        assert forall|j: nat| j < n implies (#[trigger] reply_workspace(json@, j)) is Some by {
            assert(reply_workspace(json@, j as int as nat) == Some(list@[j as int]));
        }
        assert(list@ =~= Seq::new(n as nat, |k: int| reply_workspace(json@, k as nat)->0));
        assert(reply_workspaces(json@) == Some(list@));
    }
    let ghost ws = list@;
    let r = sort_by_keys(list, &keys);
    proof {
        let order = choose|order: Seq<usize>|
            is_stable_order(keys@, order) && r@.len() == order.len() && forall|p: int|
                0 <= p < r@.len() ==> #[trigger] r@[p] == ws[order[p] as int];
        assert(is_stable_order(idx_keys(ws), order));
        assert(forall|p: int| 0 <= p < r@.len() ==> #[trigger] r@[p] == ws[order[p] as int]);
        let rw = reply_workspaces(json@)->0;
        assert(rw == ws);
        assert(is_stable_order(idx_keys(rw), order) && r@.len() == order.len() && forall|p: int|
            0 <= p < r@.len() ==> #[trigger] r@[p] == rw[order[p] as int]);
    }
    r
}

/// The colours of a workspace button, as base16 slots (fill, text): the
/// active one is accented, one holding windows is raised, others are dim.
pub open spec fn workspace_slots_of(is_active: bool, has_windows: bool) -> (u8, u8) {
    if is_active {
        (0x0d, 0x00)
    } else if has_windows {
        (0x02, 0x05)
    } else {
        (0x01, 0x03)
    }
}

pub fn workspace_slots(is_active: bool, has_windows: bool) -> (r: (u8, u8))
    ensures
        r == workspace_slots_of(is_active, has_windows),
{
    if is_active {
        (0x0d, 0x00)
    } else if has_windows {
        (0x02, 0x05)
    } else {
        (0x01, 0x03)
    }
}

/// Whether something placed on output `theirs` belongs on the bar of output
/// `mine`: when either is unknown, it does.
pub open spec fn on_output(mine: Option<Seq<char>>, theirs: Option<Seq<char>>) -> bool {
    match (mine, theirs) {
        (Some(a), Some(b)) => a == b,
        _ => true,
    }
}

pub open spec fn opt_view(o: Option<String>) -> Option<Seq<char>> {
    match o {
        Some(s) => Some(s@),
        None => None,
    }
}

pub open spec fn str_opt(o: Option<&str>) -> Option<Seq<char>> {
    match o {
        Some(m) => Some(m@),
        None => None,
    }
}

pub fn is_on_output(mine: Option<&str>, theirs: &Option<String>) -> (r: bool)
    ensures
        r == on_output(
            str_opt(mine),
            opt_view(*theirs),
        ),
{
    match (mine, theirs) {
        (Some(a), Some(b)) => {
            let ac = chars_of(a);
            let bc = chars_of(b.as_str());
            same_chars(ac.as_slice(), bc.as_slice())
        },
        _ => true,
    }
}

/// The workspaces kept for output `mine`, in their order.
pub open spec fn kept_workspaces(
    list: Seq<Workspace>,
    outputs: Seq<Option<String>>,
    mine: Option<Seq<char>>,
) -> Seq<Workspace>
    decreases list.len(),
{
    if list.len() == 0 {
        Seq::empty()
    } else {
        let n = (list.len() - 1) as int;
        let rest = kept_workspaces(list.drop_last(), outputs, mine);
        if on_output(mine, opt_view(outputs[n])) {
            rest.push(list[n])
        } else {
            rest
        }
    }
}

pub open spec fn idx_keys(ws: Seq<Workspace>) -> Seq<SortKey> {
    Seq::new(ws.len(), |i: int| (ws[i].idx as u64, 0u64, 0u64))
}

/// The workspace buttons of the bar on output `mine`: the workspaces (with
/// the output each is on) that belong there, sorted by index, ties keeping
/// their order.
pub fn workspaces_for_output(
    list: &Vec<Workspace>,
    outputs: &Vec<Option<String>>,
    mine: Option<&str>,
) -> (r: Vec<Workspace>)
    requires
        outputs@.len() == list@.len(),
    ensures
        exists|order: Seq<usize>|
            #[trigger] is_stable_order(
                idx_keys(
                    kept_workspaces(
                        list@,
                        outputs@,
                        str_opt(mine),
                    ),
                ),
                order,
            ) && r@.len() == order.len() && forall|p: int|
                0 <= p < r@.len() ==> #[trigger] r@[p] == kept_workspaces(
                    list@,
                    outputs@,
                    str_opt(mine),
                )[order[p] as int],
{
    let ghost m = str_opt(mine);
    let mut kept: Vec<Workspace> = Vec::new();
    let mut keys: Vec<SortKey> = Vec::new();
    let mut i: usize = 0;
    while i < list.len()
        invariant
            i <= list@.len(),
            outputs@.len() == list@.len(),
            m == str_opt(mine),
            kept@ == kept_workspaces(list@.take(i as int), outputs@, m),
            keys@ == idx_keys(kept@),
        decreases list.len() - i,
    {
        assert(list@.take(i + 1).drop_last() =~= list@.take(i as int));
        assert(list@.take(i + 1)[i as int] == list@[i as int]);
        if is_on_output(mine, &outputs[i]) {
            let w = list[i];
            kept.push(w);
            keys.push((w.idx as u64, 0u64, 0u64));
        }
        i += 1;
        assert(keys@ =~= idx_keys(kept@));
    }
    assert(list@.take(list@.len() as int) =~= list@);
    sort_by_keys(kept, &keys)
}

} // verus!

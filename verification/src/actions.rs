use vstd::prelude::*;
use vstd::string::StringExecFns;
use crate::tray::MenuItem;

verus! {

/// What a click on the bar asks for.
#[allow(inconsistent_fields)]
#[derive(Debug, Clone)]
pub enum BarAction {
    FocusWorkspace { id: u64 },
    FocusWindow { id: u64 },
    Spawn { cmd: String },
    // Right-click context menu actions
    CloseWindow { id: u64 },
    MaximizeColumn,
    FullscreenWindow { id: u64 },
    ToggleFloating { id: u64 },
    MoveToWorkspace { window_id: u64, ws_idx: u8 },
    // System tray actions
    TrayActivate { service: String, id: String, sni_path: String },
    TrayShowMenu { tray_idx: usize },
    TrayMenuItem { tray_idx: usize, menu_id: i32 },
}

/// A request to the compositor.
#[derive(Debug, Clone, Copy, PartialEq, Eq, Structural)]
pub enum CompositorCommand {
    FocusWorkspaceById { id: u64 },
    FocusWindow { id: u64 },
    CloseWindow { id: u64 },
    MaximizeColumn,
    FullscreenWindow { id: u64 },
    ToggleWindowFloating { id: u64 },
    MoveWindowToWorkspaceIndex { window_id: u64, index: u8, focus: bool },
}

/// What carrying out a bar action takes.
#[derive(Debug, Clone)]
pub enum ActionEffect {
    /// Send each command to the compositor, each over a connection of its
    /// own, in order, off the drawing thread.
    Compositor { commands: Vec<CompositorCommand> },
    /// Start the program named `cmd`.
    Spawn { cmd: String },
    /// Activate a tray item through its service.
    TrayActivate { service: String, id: String, sni_path: String },
    /// Nothing here: the bar handles it itself.
    Nothing,
}

/// The compositor commands that carry out `a`, if it is one for the
/// compositor.
pub open spec fn compositor_commands(a: BarAction) -> Option<Seq<CompositorCommand>> {
    match a {
        BarAction::FocusWorkspace { id } => Some(
            seq![CompositorCommand::FocusWorkspaceById { id }],
        ),
        BarAction::FocusWindow { id } => Some(seq![CompositorCommand::FocusWindow { id }]),
        BarAction::CloseWindow { id } => Some(seq![CompositorCommand::CloseWindow { id }]),
        BarAction::MaximizeColumn => Some(seq![CompositorCommand::MaximizeColumn]),
        BarAction::FullscreenWindow { id } => Some(
            seq![CompositorCommand::FullscreenWindow { id }],
        ),
        BarAction::ToggleFloating { id } => Some(
            seq![CompositorCommand::ToggleWindowFloating { id }],
        ),
        BarAction::MoveToWorkspace { window_id, ws_idx } => Some(
            seq![
                CompositorCommand::FocusWindow { id: window_id },
                CompositorCommand::MoveWindowToWorkspaceIndex {
                    window_id,
                    index: ws_idx,
                    focus: true,
                },
            ],
        ),
        _ => None,
    }
}

/// Whether `e` carries out `a`: compositor actions become their commands (a
/// window moved to a workspace is focused first, so the compositor targets it,
/// then moved there and followed), a spawn starts its command, a tray
/// activation goes to the tray item, and the tray menu actions are left to the
/// bar.
pub open spec fn effect_of(a: BarAction, e: ActionEffect) -> bool {
    match compositor_commands(a) {
        Some(cs) => e matches ActionEffect::Compositor { commands } && commands@ == cs,
        None => match a {
            BarAction::Spawn { cmd } => e matches ActionEffect::Spawn { cmd: c } && c@ == cmd@,
            BarAction::TrayActivate { service, id, sni_path } => e matches ActionEffect::TrayActivate {
                service: s,
                id: i,
                sni_path: p,
            } && s@ == service@ && i@ == id@ && p@ == sni_path@,
            _ => e is Nothing,
        },
    }
}

fn one(c: CompositorCommand) -> (e: ActionEffect)
    ensures
        e matches ActionEffect::Compositor { commands } && commands@ == seq![c],
{
    let mut commands: Vec<CompositorCommand> = Vec::new();
    commands.push(c);
    assert(commands@ =~= seq![c]);
    ActionEffect::Compositor { commands }
}

/// What the bar does for a clicked action.
pub fn plan_action(action: BarAction) -> (e: ActionEffect)
    ensures
        effect_of(action, e),
{
    match action {
        BarAction::FocusWorkspace { id } => one(CompositorCommand::FocusWorkspaceById { id }),
        BarAction::FocusWindow { id } => one(CompositorCommand::FocusWindow { id }),
        BarAction::Spawn { cmd } => ActionEffect::Spawn { cmd },
        BarAction::CloseWindow { id } => one(CompositorCommand::CloseWindow { id }),
        BarAction::MaximizeColumn => one(CompositorCommand::MaximizeColumn),
        BarAction::FullscreenWindow { id } => one(CompositorCommand::FullscreenWindow { id }),
        BarAction::ToggleFloating { id } => one(CompositorCommand::ToggleWindowFloating { id }),
        BarAction::MoveToWorkspace { window_id, ws_idx } => {
            let mut commands: Vec<CompositorCommand> = Vec::new();
            commands.push(CompositorCommand::FocusWindow { id: window_id });
            commands.push(
                CompositorCommand::MoveWindowToWorkspaceIndex { window_id, index: ws_idx, focus: true },
            );
            assert(commands@ =~= seq![
                CompositorCommand::FocusWindow { id: window_id },
                CompositorCommand::MoveWindowToWorkspaceIndex { window_id, index: ws_idx, focus: true },
            ]);
            ActionEffect::Compositor { commands }
        },
        BarAction::TrayActivate { service, id, sni_path } => ActionEffect::TrayActivate {
            service,
            id,
            sni_path,
        },
        BarAction::TrayShowMenu { .. } => ActionEffect::Nothing,
        BarAction::TrayMenuItem { .. } => ActionEffect::Nothing,
    }
}

/// A row of a popup menu: its icon, its label and the action it fires.
#[derive(Debug, Clone)]
pub struct MenuEntry {
    pub icon: String,
    pub label: String,
    pub action: BarAction,
}

fn entry(icon: &str, label: &str, action: BarAction) -> (e: MenuEntry)
    ensures
        e.icon@ == icon@,
        e.label@ == label@,
        e.action == action,
{
    MenuEntry { icon: String::from_str(icon), label: String::from_str(label), action }
}

/// The window menu of the taskbar (right click on a window): close,
/// maximize, fullscreen, float/tile, then move to workspaces 1 to 5.
pub fn window_menu(window_id: u64) -> (m: Vec<MenuEntry>)
    ensures
        m@.len() == 9,
        m@[0].label@ == " Close"@ && m@[0].action == (BarAction::CloseWindow { id: window_id }),
        m@[1].label@ == " Maximize"@ && m@[1].action == BarAction::MaximizeColumn,
        m@[2].label@ == " Fullscreen"@ && m@[2].action == (BarAction::FullscreenWindow {
            id: window_id,
        }),
        m@[3].label@ == " Float/Tile"@ && m@[3].action == (BarAction::ToggleFloating {
            id: window_id,
        }),
        forall|k: int|
            4 <= k < 9 ==> (#[trigger] m@[k]).action == (BarAction::MoveToWorkspace {
                window_id,
                ws_idx: (k - 3) as u8,
            }),
{
    let mut m: Vec<MenuEntry> = Vec::new();
    m.push(entry("\u{f00d}", " Close", BarAction::CloseWindow { id: window_id }));
    m.push(entry("\u{f2d0}", " Maximize", BarAction::MaximizeColumn));
    m.push(entry("\u{f065}", " Fullscreen", BarAction::FullscreenWindow { id: window_id }));
    m.push(entry("\u{f24d}", " Float/Tile", BarAction::ToggleFloating { id: window_id }));
    m.push(entry("\u{f6d7}", " \u{2192} WS 1", BarAction::MoveToWorkspace { window_id, ws_idx: 1 }));
    m.push(entry("\u{f6d7}", " \u{2192} WS 2", BarAction::MoveToWorkspace { window_id, ws_idx: 2 }));
    m.push(entry("\u{f6d7}", " \u{2192} WS 3", BarAction::MoveToWorkspace { window_id, ws_idx: 3 }));
    m.push(entry("\u{f6d7}", " \u{2192} WS 4", BarAction::MoveToWorkspace { window_id, ws_idx: 4 }));
    m.push(entry("\u{f6d7}", " \u{2192} WS 5", BarAction::MoveToWorkspace { window_id, ws_idx: 5 }));
    m
}

/// Whether a tray menu item is shown: separators and unlabelled items are
/// not.
pub open spec fn shown_in_menu(item: MenuItem) -> bool {
    !item.is_separator && item.label@.len() > 0
}

/// The shown items of a tray menu, in order.
pub open spec fn shown_items(items: Seq<MenuItem>) -> Seq<MenuItem>
    decreases items.len(),
{
    if items.len() == 0 {
        Seq::empty()
    } else if shown_in_menu(items.last()) {
        shown_items(items.drop_last()).push(items.last())
    } else {
        shown_items(items.drop_last())
    }
}

/// The rows of a tray item's menu: each shown item with a pointer icon and
/// its label after a space, firing that menu item.
pub fn tray_menu(items: &Vec<MenuItem>) -> (m: Vec<MenuEntry>)
    ensures
        m@.len() == shown_items(items@).len(),
        forall|k: int|
            0 <= k < m@.len() ==> {
                &&& (#[trigger] m@[k]).label@ == seq![' '] + shown_items(items@)[k].label@
                &&& m@[k].action == (BarAction::TrayMenuItem {
                    tray_idx: 0,
                    menu_id: shown_items(items@)[k].id,
                })
            },
{
    let mut m: Vec<MenuEntry> = Vec::new();
    let mut i: usize = 0;
    while i < items.len()
        invariant
            i <= items@.len(),
            m@.len() == shown_items(items@.take(i as int)).len(),
            forall|k: int|
                0 <= k < m@.len() ==> {
                    &&& (#[trigger] m@[k]).label@ == seq![' '] + shown_items(items@.take(i as int))[k].label@
                    &&& m@[k].action == (BarAction::TrayMenuItem {
                        tray_idx: 0,
                        menu_id: shown_items(items@.take(i as int))[k].id,
                    })
                },
        decreases items.len() - i,
    {
        assert(items@.take(i + 1).drop_last() =~= items@.take(i as int));
        assert(items@.take(i + 1).last() == items@[i as int]);
        let it = &items[i];
        let lc = crate::text::chars_of(it.label.as_str());
        if !it.is_separator && lc.len() > 0 {
            let mut label = String::from_str(" ");
            label.append(it.label.as_str());
            proof {
                reveal_strlit(" ");
            }
            assert(label@ =~= seq![' '] + it.label@);
            m.push(MenuEntry {
                icon: String::from_str("\u{f0da}"),
                label,
                action: BarAction::TrayMenuItem { tray_idx: 0, menu_id: it.id },
            });
        }
        i += 1;
    }
    assert(items@.take(items@.len() as int) =~= items@);
    m
}

} // verus!

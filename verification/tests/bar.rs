use vitobar::bluetooth::short_device_name;
use vitobar::actions::{plan_action, ActionEffect, BarAction, CompositorCommand};
use vitobar::categories::Category;
use vitobar::icons::{app_icon, decode_icon, desktop_icon, icon_cache_key, to_rgba, IconCache};
use vitobar::sort::{apply_order, sort_by_keys, stable_order};
use vitobar::sysmon::{background_apps, sensor_kind};
use vitobar::windows::{
    dummy_windows, order_taskbar, position_key, taskbar_windows, window_label, workspace_index,
    WindowEntry,
};
use vitobar::workspaces::{
    dummy_workspaces, is_on_output, parse_workspaces, workspace_slots, workspaces_for_output,
    Workspace,
};

#[test]
fn stable_order_sorts_by_key_keeping_ties() {
    let keys = vec![(2, 0, 0), (1, 5, 0), (2, 0, 0), (1, 0, 9), (0, 0, 0)];
    assert_eq!(stable_order(&keys), vec![4, 3, 1, 0, 2]);
    assert_eq!(stable_order(&Vec::new()), Vec::<usize>::new());
    let items = vec!["a", "b", "c", "d", "e"];
    assert_eq!(sort_by_keys(items.clone(), &keys), vec!["e", "d", "b", "a", "c"]);
    assert_eq!(apply_order(items, &vec![4, 0, 3, 1, 2]), vec!["e", "a", "d", "b", "c"]);
}

fn entry(id: u64, app: &str, ws: u8, focused: bool) -> WindowEntry {
    WindowEntry {
        id,
        title: String::new(),
        app_id: app.to_string(),
        workspace_idx: ws,
        is_focused: focused,
    }
}

#[test]
fn sample_windows() {
    let w = dummy_windows();
    assert_eq!(w.len(), 3);
    assert_eq!((w[0].id, w[0].title.as_str(), w[0].app_id.as_str()), (1, "Mozilla Firefox", "firefox"));
    assert!(w[1].is_focused);
    assert_eq!(w[2].workspace_idx, 3);
}

#[test]
fn taskbar_puts_focused_first_then_by_workspace() {
    let ws = vec![entry(1, "a", 3, false), entry(2, "b", 1, false), entry(3, "c", 2, true), entry(4, "d", 1, false)];
    let ordered = order_taskbar(ws);
    let ids: Vec<u64> = ordered.iter().map(|w| w.id).collect();
    assert_eq!(ids, vec![3, 2, 4, 1]);
    let ordered = order_taskbar(dummy_windows());
    assert_eq!(ordered.iter().map(|w| w.id).collect::<Vec<_>>(), vec![2, 1, 3]);
}

#[test]
fn workspace_lookup_takes_last_pair() {
    let pairs = vec![(10, 1), (11, 2), (10, 7)];
    assert_eq!(workspace_index(&pairs, Some(10), 0), 7);
    assert_eq!(workspace_index(&pairs, Some(11), 0), 2);
    assert_eq!(workspace_index(&pairs, Some(12), 0), 0);
    assert_eq!(workspace_index(&pairs, None, 255), 255);
}

#[test]
fn position_keys() {
    assert_eq!(position_key(2, Some((3, 1))), (2, 3, 1));
    assert_eq!(position_key(255, None), (255, usize::MAX as u64, usize::MAX as u64));
}

#[test]
fn bottom_bar_windows_for_an_output() {
    // windows on workspaces 10 (idx 2), 11 (idx 1, other output), none, 12 (idx 1)
    let window_ws = vec![Some(10), Some(11), None, Some(12)];
    let output_ws = vec![10, 12];
    let pairs = vec![(10, 2), (11, 1), (12, 1)];
    assert_eq!(taskbar_windows(&window_ws, &output_ws, &pairs), vec![3, 0, 2]);
    assert_eq!(taskbar_windows(&vec![], &output_ws, &pairs), Vec::<usize>::new());
}

#[test]
fn window_labels() {
    assert_eq!(window_label("foot", ""), "foot");
    assert_eq!(window_label("firefox", "FireFox"), "firefox");
    assert_eq!(window_label("foot", "nvim src"), "foot - nvim src");
}

#[test]
fn sample_workspaces() {
    let w = dummy_workspaces();
    assert_eq!(w.len(), 9);
    assert!(w[0].is_active && !w[1].is_active);
    assert!(w[2].has_windows && !w[3].has_windows);
    assert_eq!((w[8].id, w[8].idx), (9, 9));
    assert_eq!(parse_workspaces("{\"Ok\":{}}").len(), 9);
}

#[test]
fn workspace_button_colours() {
    assert_eq!(workspace_slots(true, true), (0x0d, 0x00));
    assert_eq!(workspace_slots(false, true), (0x02, 0x05));
    assert_eq!(workspace_slots(false, false), (0x01, 0x03));
}

#[test]
fn workspaces_filtered_and_sorted_for_output() {
    let ws = |id, idx| Workspace { id, idx, is_active: false, has_windows: false };
    let list = vec![ws(1, 3), ws(2, 1), ws(3, 2), ws(4, 1)];
    let outputs = vec![Some("DP-1".to_string()), Some("HDMI-A-1".to_string()), None, Some("DP-1".to_string())];
    let mine = workspaces_for_output(&list, &outputs, Some("DP-1"));
    assert_eq!(mine.iter().map(|w| w.id).collect::<Vec<_>>(), vec![4, 3, 1]);
    let all = workspaces_for_output(&list, &outputs, None);
    assert_eq!(all.iter().map(|w| w.id).collect::<Vec<_>>(), vec![2, 4, 3, 1]);
    assert!(is_on_output(Some("a"), &None));
    assert!(!is_on_output(Some("a"), &Some("b".to_string())));
}

#[test]
fn category_names_and_labels() {
    assert_eq!(Category::ALL.len(), 8);
    assert_eq!(Category::System.name(), "About");
    assert_eq!(Category::Appearance.icon(&[false, true]), Some('\u{f53f}'));
    assert_eq!(Category::Appearance.icon(&[true, true]), Some('\u{f1fc}'));
    assert_eq!(Category::Audio.icon(&[false]), None);
    assert_eq!(Category::Audio.label(Some('\u{f028}')), "\u{f028}  Audio");
    assert_eq!(Category::Power.label(None), "Power");
    let mut c = Category::Appearance;
    for _ in 0..8 {
        c = c.next();
    }
    assert_eq!(c, Category::Appearance);
    assert_eq!(Category::System.next(), Category::Appearance);
}

#[test]
fn bar_actions_plan() {
    match plan_action(BarAction::MoveToWorkspace { window_id: 7, ws_idx: 3 }) {
        ActionEffect::Compositor { commands } => assert_eq!(
            commands,
            vec![
                CompositorCommand::FocusWindow { id: 7 },
                CompositorCommand::MoveWindowToWorkspaceIndex { window_id: 7, index: 3, focus: true },
            ]
        ),
        other => panic!("unexpected {:?}", other),
    }
    match plan_action(BarAction::Spawn { cmd: "vitolauncher".into() }) {
        ActionEffect::Spawn { cmd } => assert_eq!(cmd, "vitolauncher"),
        other => panic!("unexpected {:?}", other),
    }
    assert!(matches!(plan_action(BarAction::TrayShowMenu { tray_idx: 0 }), ActionEffect::Nothing));
    match plan_action(BarAction::FocusWorkspace { id: 4 }) {
        ActionEffect::Compositor { commands } => {
            assert_eq!(commands, vec![CompositorCommand::FocusWorkspaceById { id: 4 }])
        }
        other => panic!("unexpected {:?}", other),
    }
}

#[test]
fn background_apps_without_windows() {
    let procs = vec!["Discord".to_string(), "steamwebhelper".to_string(), "bash".to_string()];
    let wins = vec!["Steam".to_string()];
    assert_eq!(background_apps(&procs, &wins), vec!["discord".to_string()]);
    assert_eq!(background_apps(&procs, &[]), vec!["discord".to_string(), "steam".to_string()]);
    assert!(background_apps(&[], &[]).is_empty());
}

#[test]
fn app_glyphs() {
    assert_eq!(app_icon("org.mozilla.Firefox"), "\u{f269}");
    assert_eq!(app_icon("Alacritty"), "\u{f120}");
    assert_eq!(app_icon("neovim"), "\u{e62b}");
    assert_eq!(app_icon("unknown-thing"), "\u{f2d0}");
}

#[test]
fn desktop_file_icon() {
    assert_eq!(desktop_icon("[Desktop Entry]\nName=Foo\nIcon= foo-icon \n"), Some("foo-icon".to_string()));
    assert_eq!(desktop_icon("Name=Foo\n"), None);
}

#[test]
fn pixels_to_rgba() {
    assert_eq!(to_rgba(&[1, 2, 3, 4, 5, 6], 2, 1, 2), vec![1, 2, 3, 255, 4, 5, 6, 255]);
    assert_eq!(to_rgba(&[9, 8], 1, 1, 4), vec![9, 9, 9, 8]);
    assert_eq!(to_rgba(&[7], 1, 1, 0), vec![7, 7, 7, 255]);
}

#[test]
fn png_icon_decodes() {
    let mut bytes: Vec<u8> = Vec::new();
    {
        let mut enc = png::Encoder::new(&mut bytes, 2, 1);
        enc.set_color(png::ColorType::Rgb);
        enc.set_depth(png::BitDepth::Eight);
        let mut w = enc.write_header().unwrap();
        w.write_image_data(&[10, 20, 30, 40, 50, 60]).unwrap();
    }
    let (px, w, h) = decode_icon(&bytes).unwrap();
    assert_eq!((w, h), (2, 1));
    assert_eq!(px, vec![10, 20, 30, 255, 40, 50, 60, 255]);
    assert!(decode_icon(&[1, 2, 3]).is_none());
}

#[test]
fn icon_cache_gives_back_what_was_stored() {
    assert_eq!(icon_cache_key("firefox", 24), "firefox@24");
    let mut c = IconCache::new();
    assert_eq!(c.get("firefox@24"), None);
    c.insert("firefox@24", Some(vec![1, 2, 3, 4]));
    c.insert("foot@24", None);
    assert_eq!(c.get("firefox@24"), Some(Some(vec![1, 2, 3, 4])));
    assert_eq!(c.get("foot@24"), Some(None));
    c.insert("firefox@24", Some(vec![9]));
    assert_eq!(c.get("firefox@24"), Some(Some(vec![9])));
    assert_eq!(c.get("firefox@32"), None);
}

#[test]
fn sensors_are_told_apart_by_label() {
    assert_eq!(sensor_kind("Package id 0"), (true, false));
    assert_eq!(sensor_kind("Tctl"), (true, false));
    assert_eq!(sensor_kind("amdgpu edge"), (false, true));
    assert_eq!(sensor_kind("nvme Composite"), (false, false));
    assert_eq!(sensor_kind("CPU GPU"), (true, true));
}

#[test]
fn workspaces_are_read_from_the_reply_sorted_by_index() {
    let reply = "{\"Ok\":{\"Workspaces\":[\
        {\"id\":7,\"idx\":2,\"name\":null,\"output\":\"DP-1\",\"is_urgent\":false,\"is_active\":false,\"is_focused\":false,\"active_window_id\":null},\
        {\"id\":3,\"idx\":1,\"name\":null,\"output\":\"DP-1\",\"is_urgent\":false,\"is_active\":true,\"is_focused\":true,\"active_window_id\":42}]}}";
    let ws = parse_workspaces(reply);
    assert_eq!(ws.len(), 2);
    assert_eq!((ws[0].id, ws[0].idx, ws[0].is_active, ws[0].has_windows), (3, 1, true, true));
    assert_eq!((ws[1].id, ws[1].idx, ws[1].is_active, ws[1].has_windows), (7, 2, false, false));
    let one = "{\"Ok\":{\"Workspaces\":[{\"id\":5,\"idx\":1,\"is_active\":true,\"active_window_id\":null}]}}";
    assert_eq!(parse_workspaces(one).len(), 1);
    assert_eq!(parse_workspaces("{\"Ok\":{\"Workspaces\":[]}}").len(), 0);
    // An unreadable reply, or an error from the compositor, gives the samples.
    assert_eq!(parse_workspaces("not json").len(), 9);
    assert_eq!(parse_workspaces("{\"Err\":\"nope\"}").len(), 9);
    assert_eq!(parse_workspaces("{\"Ok\":{\"Workspaces\":[{\"id\":1,\"idx\":300,\"is_active\":true}]}}").len(), 9);
}

#[test]
fn bluetooth_names_are_cut_to_six_bytes() {
    assert_eq!(short_device_name("WH-1000XM4"), "WH-100");
    assert_eq!(short_device_name("Pods"), "Pods");
    assert_eq!(short_device_name("ééé-x"), "ééé");
    assert_eq!(short_device_name("ab"), "ab");
}

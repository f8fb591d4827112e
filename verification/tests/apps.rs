use vitobar::sort::{stable_text_order, text_less};
use vitobar::desktop::{clean_exec, parse_desktop_entry, DesktopEntry};
use vitobar::greeter::{
    frame_length, frame_message, greetd_reply, login_request, login_step, session_command, ActiveField,
    ClickTarget, Greeter, GreeterKey, GreetdRequest, LoginStage, LoginStep,
};
use vitobar::launcher::{
    printable_chars, repeat_interval_ms, Launcher, LauncherKey, RepeatAction, RepeatChange,
    VISIBLE_ROWS,
};

fn app(name: &str, id: &str) -> DesktopEntry {
    DesktopEntry { name: name.to_string(), command: id.to_string(), icon: None, app_id: id.to_string() }
}

fn launcher() -> Launcher {
    Launcher::new(vec![app("Firefox", "firefox"), app("Foot", "foot"), app("Files", "org.gnome.Nautilus")])
}

#[test]
fn launcher_starts_with_everything() {
    let l = launcher();
    assert_eq!(l.filtered, vec![0, 1, 2]);
    assert_eq!((l.selected, l.scroll_offset), (0, 0));
    assert_eq!(l.visible_rows(), VISIBLE_ROWS);
    assert_eq!(VISIBLE_ROWS, 12);
}

#[test]
fn launcher_filters_ignoring_case() {
    let mut l = launcher();
    let (o, r) = l.press_key(LauncherKey::Other { text: Some("NAUT".to_string()) });
    assert!(o.redraw && !o.quit);
    assert_eq!(r, RepeatChange::Stop);
    assert_eq!(l.filtered, vec![2]);
    l.press_key(LauncherKey::Backspace);
    l.press_key(LauncherKey::Backspace);
    l.press_key(LauncherKey::Backspace);
    l.press_key(LauncherKey::Backspace);
    assert_eq!(l.filtered, vec![0, 1, 2]);
    l.press_key(LauncherKey::Other { text: Some("fo".to_string()) });
    assert_eq!(l.filtered, vec![0, 1]);
    // control characters type nothing
    let (o, _) = l.press_key(LauncherKey::Other { text: Some("\u{8}".to_string()) });
    assert!(!o.redraw);
    assert_eq!(l.query, vec!['f', 'o']);
}

#[test]
fn launcher_moves_and_launches() {
    let mut l = launcher();
    let (o, r) = l.press_key(LauncherKey::Up);
    assert!(!o.redraw);
    assert_eq!(r, RepeatChange::Start { action: RepeatAction::Up });
    let (o, _) = l.press_key(LauncherKey::Down);
    assert!(o.redraw);
    assert_eq!(l.selected, 1);
    assert!(l.repeat(RepeatAction::Down));
    assert!(!l.repeat(RepeatAction::Down));
    let (o, _) = l.press_key(LauncherKey::Enter);
    assert!(o.quit);
    assert_eq!(o.launch, Some(2));
    let (o, _) = l.press_key(LauncherKey::Escape);
    assert!(o.quit && o.launch.is_none());
}

#[test]
fn launcher_scrolls_and_clicks() {
    let entries: Vec<DesktopEntry> = (0..20).map(|i| app(&format!("App {}", i), &format!("app{}", i))).collect();
    let mut l = Launcher::new(entries);
    for _ in 0..13 {
        l.press_key(LauncherKey::Down);
    }
    assert_eq!(l.selected, 13);
    assert_eq!(l.scroll_offset, 2);
    assert!(l.scroll(-1));
    assert_eq!(l.scroll_offset, 1);
    assert_eq!(l.selected, 12);
    assert!(l.scroll(1));
    assert!(l.scroll(1));
    assert_eq!(l.scroll_offset, 3);
    assert!(l.hover(Some(0)));
    assert_eq!(l.hovered_row, Some(3));
    assert!(!l.hover(Some(0)));
    let o = l.click_row(1);
    assert!(o.quit);
    assert_eq!(o.launch, Some(4));
    let o = l.click_row(40);
    assert!(!o.quit);
}

#[test]
fn text_and_repeat_helpers() {
    assert_eq!(printable_chars("a\u{7}b\u{9f}c"), vec!['a', 'b', 'c']);
    assert_eq!(repeat_interval_ms(25), 40);
    assert_eq!(repeat_interval_ms(0), 1000);
}

#[test]
fn desktop_entries_parse() {
    let e = parse_desktop_entry(
        "[Desktop Entry]\nType=Application\nName=Foot\nName=Other\nExec=foot %U\nIcon=foot\n[Action new]\nName=New\n",
        Some("foot"),
    )
    .unwrap();
    assert_eq!((e.name.as_str(), e.command.as_str(), e.icon.as_deref(), e.app_id.as_str()), ("Foot", "foot %U", Some("foot"), "foot"));
    assert!(parse_desktop_entry("[Desktop Entry]\nType=Application\nName=X\nExec=x\nNoDisplay=true\n", Some("x")).is_none());
    assert!(parse_desktop_entry("[Desktop Entry]\nType=Link\nName=X\nExec=x\n", Some("x")).is_none());
    assert_eq!(clean_exec("firefox --new %U %f"), ("firefox".to_string(), vec!["--new".to_string()]));
}

#[test]
fn greeter_fields_and_keys() {
    let mut g = Greeter::new();
    let o = g.press_key(GreeterKey::Other { text: Some("al\u{1}ice".to_string()) });
    assert!(o.redraw && !o.login);
    assert_eq!(g.username.iter().collect::<String>(), "alice");
    let o = g.press_key(GreeterKey::Enter);
    assert!(!o.login);
    assert_eq!(g.active_field, ActiveField::Password);
    let o = g.press_key(GreeterKey::Enter);
    assert!(!o.login);
    assert_eq!(g.error_msg, "Enter a password");
    g.press_key(GreeterKey::Other { text: Some("pw".to_string()) });
    g.press_key(GreeterKey::Backspace);
    assert_eq!(g.password, vec!['p']);
    let o = g.press_key(GreeterKey::Enter);
    assert!(o.login);
    assert_eq!(g.error_msg, "");
    g.finish_login(Err("Authentication failed".to_string()));
    assert!(g.password.is_empty() && g.running);
    assert_eq!(g.error_msg, "Authentication failed");
    g.press_key(GreeterKey::Tab);
    assert_eq!(g.active_field, ActiveField::Username);
    g.press_key(GreeterKey::Escape);
    assert_eq!(g.error_msg, "");
    let mut empty = Greeter::new();
    empty.active_field = ActiveField::Password;
    let o = empty.click(ClickTarget::LoginButton);
    assert!(!o.login);
    assert_eq!(empty.error_msg, "Enter a username");
    assert_eq!(empty.active_field, ActiveField::Username);
    g.finish_login(Ok(()));
    assert!(!g.running);
}

#[test]
fn greetd_conversation() {
    match login_request("alice") {
        GreetdRequest::CreateSession { username } => assert_eq!(username, "alice"),
        _ => panic!("wrong first request"),
    }
    match login_step(LoginStage::CreatingSession, "auth_message", None, "pw") {
        LoginStep::Send { request: GreetdRequest::PostAuthMessageResponse { response }, next } => {
            assert_eq!(response, "pw");
            assert_eq!(next, LoginStage::Authenticating);
        }
        _ => panic!("expected the password"),
    }
    match login_step(LoginStage::Authenticating, "success", None, "pw") {
        LoginStep::Send { request: GreetdRequest::StartSession { cmd }, next } => {
            assert_eq!(cmd, session_command());
            assert_eq!(cmd, vec!["niri".to_string(), "--session".to_string()]);
            assert_eq!(next, LoginStage::StartingSession);
        }
        _ => panic!("expected the session start"),
    }
    match login_step(LoginStage::Authenticating, "error", None, "pw") {
        LoginStep::Fail { cancel, message } => {
            assert!(cancel);
            assert_eq!(message, "Authentication failed");
        }
        _ => panic!("expected failure"),
    }
    match login_step(LoginStage::CreatingSession, "error", Some("no such user"), "pw") {
        LoginStep::Fail { cancel, message } => {
            assert!(cancel);
            assert_eq!(message, "no such user");
        }
        _ => panic!("expected failure"),
    }
    match login_step(LoginStage::StartingSession, "weird", None, "pw") {
        LoginStep::Fail { cancel, message } => {
            assert!(!cancel);
            assert_eq!(message, "Unexpected response: weird");
        }
        _ => panic!("expected failure"),
    }
    assert!(matches!(login_step(LoginStage::StartingSession, "success", None, ""), LoginStep::Done));
}

#[test]
fn greetd_framing() {
    let f = frame_message(b"{}");
    assert_eq!(f, vec![2, 0, 0, 0, b'{', b'}']);
    assert_eq!(frame_length([2, 0, 0, 0]), 2);
    assert_eq!(frame_length([0, 1, 0, 0]), 256);
    let big = vec![0u8; 70000];
    let f = frame_message(&big);
    assert_eq!(frame_length([f[0], f[1], f[2], f[3]]), 70000);
    assert_eq!(&f[..4], &(70000u32).to_le_bytes());
}

#[test]
fn launcher_list_dedups_and_sorts() {
    let found = vec![
        app("zed", "zed"),
        app("Firefox", "firefox"),
        app("alacritty", "alacritty"),
        app("Firefox", "firefox-esr"),
        app("Écran", "ecran"),
        app("Btop", "btop"),
    ];
    let list = vitobar::desktop::order_entries(found);
    let names: Vec<(&str, &str)> = list.iter().map(|e| (e.name.as_str(), e.app_id.as_str())).collect();
    assert_eq!(
        names,
        vec![("alacritty", "alacritty"), ("Btop", "btop"), ("Firefox", "firefox"), ("zed", "zed"), ("Écran", "ecran")]
    );
}

#[test]
fn text_order_is_string_order() {
    let a: Vec<char> = "apple".chars().collect();
    let b: Vec<char> = "apples".chars().collect();
    let c: Vec<char> = "b".chars().collect();
    assert!(text_less(&a, &b));
    assert!(!text_less(&b, &a));
    assert!(text_less(&b, &c));
    assert!(!text_less(&a, &a));
    let keys = vec![c.clone(), a.clone(), c, b];
    assert_eq!(stable_text_order(&keys), vec![1, 3, 0, 2]);
}

#[test]
fn greetd_replies_are_read_by_type_and_description() {
    assert_eq!(greetd_reply("{\"type\":\"success\"}"), Some(("success".to_string(), None)));
    assert_eq!(
        greetd_reply("{\"type\":\"error\",\"error_type\":\"auth_error\",\"description\":\"bad password\"}"),
        Some(("error".to_string(), Some("bad password".to_string())))
    );
    assert_eq!(greetd_reply("{\"description\":3}"), Some((String::new(), None)));
    assert_eq!(greetd_reply("[1,2]"), Some((String::new(), None)));
    assert_eq!(greetd_reply("{\"type\":"), None);
}

#[test]
fn arrows_move_the_selection_and_keep_it_visible() {
    let entries: Vec<DesktopEntry> = (0..20).map(|i| app(&format!("app{:02}", i), &format!("id{}", i))).collect();
    let mut l = Launcher::new(entries);
    for _ in 0..13 {
        l.press_key(LauncherKey::Down);
    }
    assert_eq!(l.selected, 13);
    assert_eq!(l.scroll_offset, 13 + 1 - VISIBLE_ROWS);
    assert!(l.repeat(RepeatAction::Up));
    assert_eq!(l.selected, 12);
    let (out, _) = l.press_key(LauncherKey::Up);
    assert!(out.redraw);
    assert_eq!(l.selected, 11);
    for _ in 0..20 {
        l.repeat(RepeatAction::Up);
    }
    assert_eq!((l.selected, l.scroll_offset), (0, 0));
    assert!(!l.repeat(RepeatAction::Up));
}

#[test]
fn login_button_checks_the_fields_like_enter() {
    let mut g = Greeter::new();
    g.active_field = ActiveField::Password;
    let out = g.click(ClickTarget::LoginButton);
    assert!(out.redraw && !out.login);
    assert_eq!(g.error_msg, "Enter a username");
    assert_eq!(g.active_field, ActiveField::Username);
    g.username = "ann".chars().collect();
    let out = g.click(ClickTarget::LoginButton);
    assert!(!out.login);
    assert_eq!(g.error_msg, "Enter a password");
    g.password = "pw".chars().collect();
    let out = g.click(ClickTarget::LoginButton);
    assert!(out.login);
    assert_eq!(g.error_msg, "");
}

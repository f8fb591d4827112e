use vitobar::settings_file::{with_setting, without_setting};

fn table(text: &str) -> toml::Table {
    toml::from_str(text).unwrap()
}

#[test]
fn setting_a_key_keeps_the_others() {
    let out = with_setting(Some("bar_height = 24\nselected_theme = \"Nord\"\n"), "font_size", toml::Value::Float(12.5)).unwrap();
    let t = table(&out);
    assert_eq!(t.len(), 3);
    assert_eq!(t["bar_height"], toml::Value::Integer(24));
    assert_eq!(t["selected_theme"], toml::Value::String("Nord".into()));
    assert_eq!(t["font_size"], toml::Value::Float(12.5));
    let out = with_setting(Some("bar_height = 24\n"), "bar_height", toml::Value::Integer(30)).unwrap();
    assert_eq!(table(&out)["bar_height"], toml::Value::Integer(30));
    assert_eq!(table(&out).len(), 1);
}

#[test]
fn setting_a_key_in_a_missing_or_broken_file_starts_afresh() {
    let out = with_setting(None, "weather_units", toml::Value::String("F".into())).unwrap();
    assert_eq!(out, "weather_units = \"F\"\n");
    let out = with_setting(Some("this is = = not toml"), "bar_height", toml::Value::Integer(21)).unwrap();
    assert_eq!(out, "bar_height = 21\n");
}

#[test]
fn removing_a_key_keeps_the_others() {
    let out = without_setting("selected_theme = \"Nord\"\nbar_height = 24\n", "selected_theme").unwrap();
    assert_eq!(out, "bar_height = 24\n");
    let out = without_setting("bar_height = 24\n", "absent").unwrap();
    assert_eq!(out, "bar_height = 24\n");
    assert_eq!(without_setting("= broken", "bar_height"), None);
}

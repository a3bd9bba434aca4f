use reforger_launcher::settings::{
    copy_opt_text, load_settings, same_opt_text, settings_location, settings_location_in,
    AppSettings,
};

fn joined(dir: &str, name: &str) -> String {
    std::path::Path::new(dir).join(name).to_string_lossy().into_owned()
}

#[test]
fn default_settings_have_both_fields_absent() {
    let settings = AppSettings::default();
    assert_eq!(settings.last_config, None);
    assert_eq!(settings.server_dir, None);
}

#[test]
fn load_settings_uses_the_defaults_where_nothing_was_stored() {
    assert_eq!(load_settings(None), AppSettings::default());
}

#[test]
fn load_settings_hands_back_what_was_stored() {
    let both = AppSettings { last_config: Some("/cfgs/a.json".to_string()), server_dir: Some("/srv".to_string()) };
    let only_config = AppSettings { last_config: Some("/cfgs/a.json".to_string()), server_dir: None };
    let only_dir = AppSettings { last_config: None, server_dir: Some("/srv".to_string()) };
    assert_eq!(load_settings(Some(both.clone())), both);
    assert_eq!(load_settings(Some(only_config.clone())), only_config);
    assert_eq!(load_settings(Some(only_dir.clone())), only_dir);
    assert_eq!(load_settings(Some(AppSettings::default())), AppSettings::default());
}

#[test]
fn settings_are_equal_field_by_field() {
    let a = AppSettings { last_config: Some("x".to_string()), server_dir: None };
    let b = AppSettings { last_config: Some("x".to_string()), server_dir: None };
    let c = AppSettings { last_config: None, server_dir: Some("x".to_string()) };
    let d = AppSettings { last_config: Some("y".to_string()), server_dir: None };
    assert!(a == b);
    assert!(a != c);
    assert!(a != d);
    assert!(a.clone() == a);
}

#[test]
fn optional_texts_compare_and_copy() {
    let some = Some("a".to_string());
    assert!(same_opt_text(&some, &Some("a".to_string())));
    assert!(!same_opt_text(&some, &Some("b".to_string())));
    assert!(!same_opt_text(&some, &None));
    assert!(same_opt_text(&None, &None));
    assert_eq!(copy_opt_text(&some), some);
    assert_eq!(copy_opt_text(&None), None);
}

#[test]
fn settings_location_in_a_directory_is_its_settings_file() {
    let location = settings_location_in(Some("/home/u/.config/reforgerlauncher".to_string())).unwrap();
    assert_eq!(location.dir, "/home/u/.config/reforgerlauncher");
    assert_eq!(location.file, joined("/home/u/.config/reforgerlauncher", "settings.json"));
    assert!(location.file.ends_with("settings.json"));
    assert!(location.file.len() > location.dir.len());
    assert_eq!(settings_location_in(None), None);
}

#[test]
fn settings_location_of_this_machine_is_a_settings_file_in_its_directory() {
    if let Some(location) = settings_location() {
        assert_eq!(location.file, joined(&location.dir, "settings.json"));
        assert!(!location.dir.is_empty());
    }
}

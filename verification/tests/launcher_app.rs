use reforger_launcher::catalog::DirEntry;
use reforger_launcher::launcher_app::{position, LauncherApp, Pending, UiAction, UiEvent};
use reforger_launcher::settings::AppSettings;

fn texts(items: &[&str]) -> Vec<String> {
    items.iter().map(|s| s.to_string()).collect()
}

fn joined(dir: &str, name: &str) -> String {
    std::path::Path::new(dir).join(name).to_string_lossy().into_owned()
}

fn file(path: &str) -> DirEntry {
    DirEntry { path: path.to_string(), is_file: true }
}

fn settings(last_config: Option<&str>, server_dir: Option<&str>) -> AppSettings {
    AppSettings {
        last_config: last_config.map(|s| s.to_string()),
        server_dir: server_dir.map(|s| s.to_string()),
    }
}

fn listing() -> Option<Vec<DirEntry>> {
    Some(vec![file("/cfgs/gamma.json"), file("/cfgs/alpha.json"), file("/cfgs/Beta.json"), file("/cfgs/notes.md")])
}

fn app(prefs: AppSettings) -> LauncherApp {
    LauncherApp::new(prefs, "/opt/launcher".to_string(), texts(&["-maxFPS", "120"]), listing())
}

fn server_exe() -> String {
    joined("/srv", "ArmaReforgerServer.exe")
}

#[test]
fn exe_dir_is_the_parent_of_the_executable() {
    assert_eq!(LauncherApp::exe_dir(Some("/opt/launcher/launcher".to_string()), Some("/tmp".to_string())), "/opt/launcher");
    assert_ne!(LauncherApp::exe_dir(Some("/opt/launcher/launcher".to_string()), None), "/opt/launcher/launcher");
}

#[test]
fn exe_dir_falls_back_to_the_current_directory_and_then_to_a_dot() {
    assert_eq!(LauncherApp::exe_dir(None, Some("/tmp".to_string())), "/tmp");
    assert_eq!(LauncherApp::exe_dir(Some("/".to_string()), Some("/tmp".to_string())), "/tmp");
    assert_eq!(LauncherApp::exe_dir(None, None), ".");
    assert_eq!(LauncherApp::exe_dir(Some("".to_string()), None), ".");
}

#[test]
fn configs_dir_beside_the_executable_is_called_configs() {
    assert_eq!(LauncherApp::configs_dir_beside("/opt/launcher"), joined("/opt/launcher", "configs"));
}

#[test]
fn position_finds_the_first_occurrence() {
    let paths = texts(&["a", "b", "a"]);
    assert_eq!(position(&paths, &"a".to_string()), Some(0));
    assert_eq!(position(&paths, &"b".to_string()), Some(1));
    assert_eq!(position(&paths, &"c".to_string()), None);
    assert_eq!(position(&Vec::new(), &"a".to_string()), None);
}

#[test]
fn new_scans_the_configs_directory() {
    let app = app(settings(None, None));
    assert_eq!(app.configs_dir, joined("/opt/launcher", "configs"));
    assert_eq!(app.available_configs, texts(&["/cfgs/alpha.json", "/cfgs/Beta.json", "/cfgs/gamma.json"]));
    assert_eq!(app.selected_idx, None);
    assert_eq!(app.status, "");
    assert_eq!(app.filter, "");
    assert_eq!(app.exe_dir, "/opt/launcher");
    assert_eq!(app.fixed_args, texts(&["-maxFPS", "120"]));
    assert_eq!(app.pending, Pending::Idle);
}

#[test]
fn new_selects_the_last_used_configuration_when_it_is_listed() {
    assert_eq!(app(settings(Some("/cfgs/Beta.json"), None)).selected_idx, Some(1));
    assert_eq!(app(settings(Some("/cfgs/gone.json"), None)).selected_idx, None);
}

#[test]
fn new_without_a_configs_directory_says_so() {
    let app = LauncherApp::new(settings(Some("/cfgs/a.json"), None), "/opt/launcher".to_string(), Vec::new(), None);
    assert!(app.available_configs.is_empty());
    assert_eq!(app.selected_idx, None);
    assert_eq!(app.status, format!("No .json configs found in {}", joined("/opt/launcher", "configs")));
}

#[test]
fn filtered_indices_follow_the_filter() {
    let mut app = app(settings(None, None));
    assert_eq!(app.filtered_indices(), vec![0, 1, 2]);
    assert_eq!(app.update(UiEvent::FilterChanged { text: "b".to_string() }), UiAction::Nothing);
    assert_eq!(app.filter, "b");
    assert_eq!(app.filtered_indices(), vec![1]);
    assert_eq!(app.update(UiEvent::FilterChanged { text: "  ".to_string() }), UiAction::Nothing);
    assert_eq!(app.filtered_indices(), vec![0, 1, 2]);
    assert_eq!(app.update(UiEvent::FilterChanged { text: "alp".to_string() }), UiAction::Nothing);
    assert_eq!(app.update(UiEvent::FilterCleared), UiAction::Nothing);
    assert_eq!(app.filter, "");
    assert_eq!(app.filtered_indices(), vec![0, 1, 2]);
}

#[test]
fn a_click_selects_an_entry_of_the_catalogue() {
    let mut app = app(settings(None, None));
    assert_eq!(app.update(UiEvent::RowClicked { index: 2 }), UiAction::Nothing);
    assert_eq!(app.selected_idx, Some(2));
    assert_eq!(app.update(UiEvent::RowClicked { index: 3 }), UiAction::Nothing);
    assert_eq!(app.selected_idx, Some(2));
}

#[test]
fn refresh_replaces_the_catalogue_and_keeps_a_selection_that_still_holds() {
    let mut app = app(settings(Some("/cfgs/alpha.json"), None));
    assert_eq!(app.selected_idx, Some(0));
    let more = Some(vec![file("/cfgs/alpha.json"), file("/cfgs/zeta.json")]);
    assert_eq!(app.update(UiEvent::Refreshed { listing: more }), UiAction::Nothing);
    assert_eq!(app.available_configs, texts(&["/cfgs/alpha.json", "/cfgs/zeta.json"]));
    assert_eq!(app.selected_idx, Some(0));
    assert_eq!(app.status, "");
}

#[test]
fn refresh_drops_a_selection_that_no_longer_names_the_same_path() {
    let mut app = app(settings(Some("/cfgs/Beta.json"), None));
    assert_eq!(app.selected_idx, Some(1));
    let shifted = Some(vec![file("/cfgs/alpha.json"), file("/cfgs/Beta.json"), file("/cfgs/aardvark.json")]);
    app.refresh_configs(shifted);
    assert_eq!(app.available_configs, texts(&["/cfgs/aardvark.json", "/cfgs/alpha.json", "/cfgs/Beta.json"]));
    assert_eq!(app.selected_idx, None);
}

#[test]
fn refresh_of_a_vanished_directory_empties_the_catalogue() {
    let mut app = app(settings(Some("/cfgs/Beta.json"), None));
    app.refresh_configs(None);
    assert!(app.available_configs.is_empty());
    assert_eq!(app.selected_idx, None);
    assert_eq!(app.status, format!("No .json configs found in {}", joined("/opt/launcher", "configs")));
}

#[test]
fn another_configs_directory_replaces_the_catalogue_and_the_selection() {
    let mut app = app(settings(Some("/cfgs/alpha.json"), None));
    let event = UiEvent::ConfigsDirChosen {
        dir: "/other".to_string(),
        listing: Some(vec![file("/other/alpha.json"), file("/other/b.json")]),
    };
    assert_eq!(app.update(event), UiAction::Nothing);
    assert_eq!(app.configs_dir, "/other");
    assert_eq!(app.available_configs, texts(&["/other/alpha.json", "/other/b.json"]));
    assert_eq!(app.selected_idx, None);
    let same_place = UiEvent::ConfigsDirChosen { dir: "/other".to_string(), listing: None };
    app.click(0);
    assert_eq!(app.update(same_place), UiAction::Nothing);
    assert_eq!(app.selected_idx, None);
    assert_eq!(app.status, "No .json configs found in /other");
}

#[test]
fn a_browsed_file_joins_the_catalogue_once_and_is_selected() {
    let mut app = app(settings(None, None));
    assert_eq!(app.update(UiEvent::ConfigBrowsed { file: "/elsewhere/x.json".to_string() }), UiAction::Nothing);
    assert_eq!(app.available_configs.len(), 4);
    assert_eq!(app.available_configs[3], "/elsewhere/x.json");
    assert_eq!(app.selected_idx, Some(3));
    assert_eq!(app.update(UiEvent::ConfigBrowsed { file: "/cfgs/Beta.json".to_string() }), UiAction::Nothing);
    assert_eq!(app.available_configs.len(), 4);
    assert_eq!(app.selected_idx, Some(1));
    app.browse("/elsewhere/x.json".to_string());
    assert_eq!(app.available_configs.len(), 4);
    assert_eq!(app.selected_idx, Some(3));
}

#[test]
fn a_chosen_server_directory_is_to_be_saved() {
    let mut app = app(settings(Some("/cfgs/alpha.json"), None));
    assert_eq!(app.update(UiEvent::ServerDirChosen { dir: "/srv".to_string() }), UiAction::SaveSettings);
    assert_eq!(app.settings, settings(Some("/cfgs/alpha.json"), Some("/srv")));
}

#[test]
fn launch_without_a_selection_asks_for_one() {
    let mut app = app(settings(None, Some("/srv")));
    assert_eq!(app.update(UiEvent::LaunchClicked), UiAction::Nothing);
    assert_eq!(app.status, "Select a config first.");
    assert_eq!(app.pending, Pending::Idle);
}

#[test]
fn launch_with_a_selection_out_of_range_is_refused() {
    let mut app = app(settings(None, Some("/srv")));
    app.selected_idx = Some(3);
    assert_eq!(app.launch_selected(), UiAction::Nothing);
    assert_eq!(app.status, "Invalid selection.");
    assert_eq!(app.pending, Pending::Idle);
}

#[test]
fn launch_with_a_missing_executable_never_spawns() {
    let mut app = app(settings(Some("/cfgs/alpha.json"), Some("/srv")));
    let before = app.settings.clone();
    assert_eq!(app.update(UiEvent::LaunchClicked), UiAction::CheckExecutable { path: server_exe() });
    assert_eq!(app.update(UiEvent::ExecutableChecked { exists: false }), UiAction::Nothing);
    assert_eq!(
        app.status,
        format!("Server exe not found: {}\nSet the correct server directory.", server_exe())
    );
    assert_eq!(app.pending, Pending::Idle);
    assert_eq!(app.settings, before);
    assert_eq!(app.update(UiEvent::SpawnReturned { failure: None }), UiAction::Nothing);
    assert_eq!(app.settings, before);
}

#[test]
fn a_launch_that_works_saves_the_launched_configuration_once() {
    let mut app = app(settings(Some("/cfgs/alpha.json"), Some("/srv")));
    app.click(2);
    let argv = vec![
        server_exe(),
        "-maxFPS".to_string(),
        "120".to_string(),
        "-config".to_string(),
        "/cfgs/gamma.json".to_string(),
    ];
    let actions = vec![
        app.update(UiEvent::LaunchClicked),
        app.update(UiEvent::ExecutableChecked { exists: true }),
        app.update(UiEvent::SpawnReturned { failure: None }),
    ];
    assert_eq!(
        actions,
        vec![
            UiAction::CheckExecutable { path: server_exe() },
            UiAction::SpawnDetached { argv: argv.clone(), working_dir: "/srv".to_string() },
            UiAction::SaveSettings,
        ]
    );
    assert_eq!(actions.iter().filter(|a| **a == UiAction::SaveSettings).count(), 1);
    assert_eq!(app.settings, settings(Some("/cfgs/gamma.json"), Some("/srv")));
    assert_eq!(app.status, format!("Launched:\n{}", argv.join(" ")));
    assert_eq!(app.pending, Pending::Idle);
    assert_eq!(app.update(UiEvent::SpawnReturned { failure: None }), UiAction::Nothing);
    assert_eq!(app.update(UiEvent::ExecutableChecked { exists: true }), UiAction::Nothing);
}

#[test]
fn a_spawn_that_fails_is_reported_and_nothing_is_saved() {
    let mut app = app(settings(Some("/cfgs/alpha.json"), None));
    let before = app.settings.clone();
    assert_eq!(
        app.update(UiEvent::LaunchClicked),
        UiAction::CheckExecutable { path: joined("/opt/launcher", "ArmaReforgerServer.exe") }
    );
    assert!(matches!(app.update(UiEvent::ExecutableChecked { exists: true }), UiAction::SpawnDetached { .. }));
    assert!(matches!(app.pending, Pending::Spawning(_)));
    assert_eq!(app.update(UiEvent::SpawnReturned { failure: Some("no such file".to_string()) }), UiAction::Nothing);
    assert_eq!(app.status, "Failed to launch: no such file");
    assert_eq!(app.settings, before);
    assert_eq!(app.pending, Pending::Idle);
}

#[test]
fn a_double_click_selects_and_launches() {
    let mut app = app(settings(None, Some("/srv")));
    assert_eq!(app.update(UiEvent::RowDoubleClicked { index: 1 }), UiAction::CheckExecutable { path: server_exe() });
    assert_eq!(app.selected_idx, Some(1));
    match &app.pending {
        Pending::Checking(plan) => assert_eq!(plan.config_path, "/cfgs/Beta.json"),
        other => panic!("unexpected state {:?}", other),
    }
}

#[test]
fn a_double_click_outside_the_catalogue_does_nothing() {
    let mut app = app(settings(Some("/cfgs/alpha.json"), Some("/srv")));
    let before = app.clone();
    assert_eq!(app.update(UiEvent::RowDoubleClicked { index: 3 }), UiAction::Nothing);
    assert_eq!(app, before);
}

#[test]
fn exe_dir_from_takes_the_first_directory_that_is_known() {
    assert_eq!(LauncherApp::exe_dir_from(Some("/a".to_string()), Some("/b".to_string())), "/a");
    assert_eq!(LauncherApp::exe_dir_from(Some("".to_string()), Some("/b".to_string())), "");
    assert_eq!(LauncherApp::exe_dir_from(None, Some("/b".to_string())), "/b");
    assert_eq!(LauncherApp::exe_dir_from(None, None), ".");
}

#[test]
fn an_answer_that_nobody_waits_for_changes_nothing() {
    let mut app = app(settings(Some("/cfgs/alpha.json"), Some("/srv")));
    let before = app.clone();
    assert_eq!(app.update(UiEvent::ExecutableChecked { exists: true }), UiAction::Nothing);
    assert_eq!(app.update(UiEvent::SpawnReturned { failure: None }), UiAction::Nothing);
    assert_eq!(app.update(UiEvent::SpawnReturned { failure: Some("x".to_string()) }), UiAction::Nothing);
    assert_eq!(app, before);
    assert_eq!(app.update(UiEvent::LaunchClicked), UiAction::CheckExecutable { path: server_exe() });
    assert_eq!(app.update(UiEvent::SpawnReturned { failure: None }), UiAction::Nothing);
    assert!(matches!(app.pending, Pending::Checking(_)));
    assert_eq!(app.settings, before.settings);
}

#[test]
fn command_preview_shows_the_selected_configuration_in_quotes() {
    let mut app = app(settings(None, Some("/srv")));
    assert_eq!(app.command_preview(), None);
    app.click(0);
    assert_eq!(
        app.command_preview(),
        Some(format!("{} -maxFPS 120 -config \"/cfgs/alpha.json\"", server_exe()))
    );
    app.selected_idx = Some(7);
    assert_eq!(app.command_preview(), None);
}

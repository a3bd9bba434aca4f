//! The launcher's state and what each event does to it. The window, the
//! dialogs, the file system and the spawn are outside: they hand their results
//! in as events and carry out the actions that come back.

use crate::catalog::{
    all_indices, catalogue_of, filter, filtered, listing_view, scan, scan_status, status_of_scan,
    DirEntry, DirEntryView,
};
use crate::command::{preview, preview_text};
use crate::launcher::{
    check_executable, error_text, finish_launch, plan_launch, planned, server_dir_of,
    server_exe_of, success_text, LaunchErrorView, LaunchPlan, LaunchPlanView, LaunchSuccessView,
};
use crate::paths::{join_path, joined_path, parent, parent_of};
use crate::settings::{opt_text, AppSettings, AppSettingsView};
use crate::text::{copy_texts, is_blank};
use vstd::prelude::*;

verus! {

/// How far a launch has come.
#[derive(Clone, Debug, PartialEq)]
pub enum Pending {
    /// No launch is on its way.
    Idle,
    /// The question whether the executable exists is out.
    Checking(LaunchPlan),
    /// The spawn is out.
    Spawning(LaunchPlan),
}

/// The progress of a launch as plain values.
pub enum PendingView {
    Idle,
    Checking(LaunchPlanView),
    Spawning(LaunchPlanView),
}

impl View for Pending {
    type V = PendingView;

    open spec fn view(&self) -> PendingView {
        match self {
            Pending::Idle => PendingView::Idle,
            Pending::Checking(plan) => PendingView::Checking(plan@),
            Pending::Spawning(plan) => PendingView::Spawning(plan@),
        }
    }
}

/// The state of the launcher.
#[derive(Clone, Debug, PartialEq)]
pub struct LauncherApp {
    /// The operator's preferences.
    pub settings: AppSettings,
    /// The directory whose configuration files are offered.
    pub configs_dir: String,
    /// The catalogue: the configuration files on offer.
    pub available_configs: Vec<String>,
    /// The query that narrows the catalogue.
    pub filter: String,
    /// The chosen entry of the catalogue, if any.
    pub selected_idx: Option<usize>,
    /// What the launcher last had to say.
    pub status: String,
    /// The directory of the launcher's own executable.
    pub exe_dir: String,
    /// The arguments that every launch passes before the configuration flag.
    pub fixed_args: Vec<String>,
    /// The launch on its way, if any.
    pub pending: Pending,
}

/// The launcher's state as plain values.
pub struct LauncherAppView {
    pub settings: AppSettingsView,
    pub configs_dir: Seq<char>,
    pub available_configs: Seq<Seq<char>>,
    pub filter: Seq<char>,
    pub selected_idx: Option<usize>,
    pub status: Seq<char>,
    pub exe_dir: Seq<char>,
    pub fixed_args: Seq<Seq<char>>,
    pub pending: PendingView,
}

impl View for LauncherApp {
    type V = LauncherAppView;

    open spec fn view(&self) -> LauncherAppView {
        LauncherAppView {
            settings: self.settings@,
            configs_dir: self.configs_dir@,
            available_configs: self.available_configs.deep_view(),
            filter: self.filter@,
            selected_idx: self.selected_idx,
            status: self.status@,
            exe_dir: self.exe_dir@,
            fixed_args: self.fixed_args.deep_view(),
            pending: self.pending@,
        }
    }
}

/// What the outside world reports to the launcher.
#[derive(Clone, Debug, PartialEq)]
pub enum UiEvent {
    /// The operator chose another configurations directory, which was then listed.
    ConfigsDirChosen { dir: String, listing: Option<Vec<DirEntry>> },
    /// The operator asked for a rescan, and the configurations directory was listed.
    Refreshed { listing: Option<Vec<DirEntry>> },
    /// The operator edited the query.
    FilterChanged { text: String },
    /// The operator cleared the query.
    FilterCleared,
    /// The operator clicked an entry of the catalogue.
    RowClicked { index: usize },
    /// The operator double-clicked an entry of the catalogue, which selects
    /// and launches it.
    RowDoubleClicked { index: usize },
    /// The operator picked a configuration file in a file dialog.
    ConfigBrowsed { file: String },
    /// The operator chose the server directory.
    ServerDirChosen { dir: String },
    /// The operator asked for a launch.
    LaunchClicked,
    /// The answer to `UiAction::CheckExecutable`.
    ExecutableChecked { exists: bool },
    /// The answer to `UiAction::SpawnDetached`: `None` where the process
    /// started, else the operating system's message.
    SpawnReturned { failure: Option<String> },
}

/// An event as plain values.
pub enum UiEventView {
    ConfigsDirChosen { dir: Seq<char>, listing: Option<Seq<DirEntryView>> },
    Refreshed { listing: Option<Seq<DirEntryView>> },
    FilterChanged { text: Seq<char> },
    FilterCleared,
    RowClicked { index: usize },
    RowDoubleClicked { index: usize },
    ConfigBrowsed { file: Seq<char> },
    ServerDirChosen { dir: Seq<char> },
    LaunchClicked,
    ExecutableChecked { exists: bool },
    SpawnReturned { failure: Option<Seq<char>> },
}

impl View for UiEvent {
    type V = UiEventView;

    open spec fn view(&self) -> UiEventView {
        match self {
            UiEvent::ConfigsDirChosen { dir, listing } => UiEventView::ConfigsDirChosen {
                dir: dir@,
                listing: listing_view(*listing),
            },
            UiEvent::Refreshed { listing } => UiEventView::Refreshed {
                listing: listing_view(*listing),
            },
            UiEvent::FilterChanged { text } => UiEventView::FilterChanged { text: text@ },
            UiEvent::FilterCleared => UiEventView::FilterCleared,
            UiEvent::RowClicked { index } => UiEventView::RowClicked { index: *index },
            UiEvent::RowDoubleClicked { index } => UiEventView::RowDoubleClicked { index: *index },
            UiEvent::ConfigBrowsed { file } => UiEventView::ConfigBrowsed { file: file@ },
            UiEvent::ServerDirChosen { dir } => UiEventView::ServerDirChosen { dir: dir@ },
            UiEvent::LaunchClicked => UiEventView::LaunchClicked,
            UiEvent::ExecutableChecked { exists } => UiEventView::ExecutableChecked {
                exists: *exists,
            },
            UiEvent::SpawnReturned { failure } => UiEventView::SpawnReturned {
                failure: opt_text(*failure),
            },
        }
    }
}

/// What the launcher asks of the outside world.
#[derive(Clone, Debug, PartialEq)]
pub enum UiAction {
    /// Nothing is to be done.
    Nothing,
    /// Write the preferences to their place.
    SaveSettings,
    /// Find out whether a file stands at `path`, and report `ExecutableChecked`.
    CheckExecutable { path: String },
    /// Start `argv` as a detached process in `working_dir`, its standard
    /// streams closed, keep no handle to it, and report `SpawnReturned`.
    SpawnDetached { argv: Vec<String>, working_dir: String },
}

/// An action as plain values.
pub enum UiActionView {
    Nothing,
    SaveSettings,
    CheckExecutable { path: Seq<char> },
    SpawnDetached { argv: Seq<Seq<char>>, working_dir: Seq<char> },
}

impl View for UiAction {
    type V = UiActionView;

    open spec fn view(&self) -> UiActionView {
        match self {
            UiAction::Nothing => UiActionView::Nothing,
            UiAction::SaveSettings => UiActionView::SaveSettings,
            UiAction::CheckExecutable { path } => UiActionView::CheckExecutable { path: path@ },
            UiAction::SpawnDetached { argv, working_dir } => UiActionView::SpawnDetached {
                argv: argv.deep_view(),
                working_dir: working_dir@,
            },
        }
    }
}

/// `i` is the first position at which `path` stands in `paths`.
pub open spec fn is_first_at(paths: Seq<Seq<char>>, path: Seq<char>, i: int) -> bool {
    &&& 0 <= i < paths.len()
    &&& paths[i] == path
    &&& forall|j: int| 0 <= j < i ==> paths[j] != path
}

/// The first position at which `path` stands in `paths`, if it stands there at all.
pub open spec fn position_of(paths: Seq<Seq<char>>, path: Seq<char>) -> Option<usize> {
    if exists|i: int| is_first_at(paths, path, i) {
        Some((choose|i: int| is_first_at(paths, path, i)) as usize)
    } else {
        None
    }
}

/// The directory of the launcher's own executable: the parent of the
/// executable's path; where that is not to be had, the current directory;
/// where that is not to be had either, ".".
pub open spec fn exe_dir_of(current_exe: Option<Seq<char>>, current_dir: Option<Seq<char>>) -> Seq<
    char,
> {
    if current_exe is Some && parent_of(current_exe->0) is Some {
        parent_of(current_exe->0)->0
    } else if current_dir is Some {
        current_dir->0
    } else {
        "."@
    }
}

/// The configurations directory of a fresh launcher: `configs` beside its executable.
pub open spec fn default_configs_dir(exe_dir: Seq<char>) -> Seq<char> {
    joined_path(exe_dir, "configs"@)
}

/// The selection that the last used configuration gives in a catalogue.
pub open spec fn remembered_selection(settings: AppSettingsView, available: Seq<Seq<char>>) -> Option<
    usize,
> {
    match settings.last_config {
        Some(last) => position_of(available, last),
        None => None,
    }
}

/// The state in which the launcher starts.
pub open spec fn started(
    settings: AppSettingsView,
    exe_dir: Seq<char>,
    fixed_args: Seq<Seq<char>>,
    listing: Option<Seq<DirEntryView>>,
) -> LauncherAppView {
    let configs_dir = default_configs_dir(exe_dir);
    let available = catalogue_of(listing);
    LauncherAppView {
        settings,
        configs_dir,
        available_configs: available,
        filter: Seq::empty(),
        selected_idx: remembered_selection(settings, available),
        status: status_of_scan(configs_dir, available),
        exe_dir,
        fixed_args,
        pending: PendingView::Idle,
    }
}

/// The selection after a rescan: it stays where the same position still holds
/// the same path, and is dropped otherwise.
pub open spec fn kept_selection(
    selected: Option<usize>,
    before: Seq<Seq<char>>,
    after: Seq<Seq<char>>,
) -> Option<usize> {
    match selected {
        Some(i) => if i < before.len() && i < after.len() && before[i as int] == after[i as int] {
            Some(i)
        } else {
            None
        },
        None => None,
    }
}

/// The state after a rescan of the configurations directory.
pub open spec fn rescanned(app: LauncherAppView, listing: Option<Seq<DirEntryView>>) -> LauncherAppView {
    let available = catalogue_of(listing);
    LauncherAppView {
        available_configs: available,
        selected_idx: kept_selection(app.selected_idx, app.available_configs, available),
        status: status_of_scan(app.configs_dir, available),
        ..app
    }
}

/// The state after a click on the entry `index`: a click outside the catalogue changes nothing.
pub open spec fn clicked(app: LauncherAppView, index: usize) -> LauncherAppView {
    if index < app.available_configs.len() {
        LauncherAppView { selected_idx: Some(index), ..app }
    } else {
        app
    }
}

/// The state after the operator picked `file` in a dialog: the file joins the
/// catalogue unless it is there, and is selected.
pub open spec fn browsed(app: LauncherAppView, file: Seq<char>) -> LauncherAppView {
    let available = if app.available_configs.contains(file) {
        app.available_configs
    } else {
        app.available_configs.push(file)
    };
    LauncherAppView {
        available_configs: available,
        selected_idx: position_of(available, file),
        ..app
    }
}

/// What a request to launch leads to: without a valid selection a status
/// text, with one the question whether the executable exists.
pub open spec fn launch_requested(app: LauncherAppView) -> (LauncherAppView, UiActionView) {
    match app.selected_idx {
        None => (
            LauncherAppView { status: "Select a config first."@, ..app },
            UiActionView::Nothing,
        ),
        Some(i) => if i >= app.available_configs.len() {
            (LauncherAppView { status: "Invalid selection."@, ..app }, UiActionView::Nothing)
        } else {
            let plan = planned(
                app.settings,
                app.exe_dir,
                app.fixed_args,
                app.available_configs[i as int],
            );
            (
                LauncherAppView { pending: PendingView::Checking(plan), ..app },
                UiActionView::CheckExecutable { path: plan.executable },
            )
        },
    }
}

/// What the answer to the existence check leads to: the spawn, or the report
/// that the executable is missing. An answer that nobody waits for is ignored.
pub open spec fn executable_checked(app: LauncherAppView, exists: bool) -> (
    LauncherAppView,
    UiActionView,
) {
    match app.pending {
        PendingView::Checking(plan) => if exists {
            (
                LauncherAppView { pending: PendingView::Spawning(plan), ..app },
                UiActionView::SpawnDetached { argv: plan.argv, working_dir: plan.working_dir },
            )
        } else {
            (
                LauncherAppView {
                    pending: PendingView::Idle,
                    status: error_text(
                        LaunchErrorView::ExecutableNotFound { path: plan.executable },
                    ),
                    ..app
                },
                UiActionView::Nothing,
            )
        },
        _ => (app, UiActionView::Nothing),
    }
}

/// What the return of the spawn leads to: a launch that worked is remembered
/// and saved, one that failed is reported. A return that nobody waits for is ignored.
pub open spec fn spawn_returned(app: LauncherAppView, failure: Option<Seq<char>>) -> (
    LauncherAppView,
    UiActionView,
) {
    match app.pending {
        PendingView::Spawning(plan) => match failure {
            None => (
                LauncherAppView {
                    pending: PendingView::Idle,
                    settings: AppSettingsView {
                        last_config: Some(plan.config_path),
                        server_dir: app.settings.server_dir,
                    },
                    status: success_text(
                        LaunchSuccessView { executable_path: plan.executable, args: plan.argv },
                    ),
                    ..app
                },
                UiActionView::SaveSettings,
            ),
            Some(message) => (
                LauncherAppView {
                    pending: PendingView::Idle,
                    status: error_text(LaunchErrorView::SpawnFailed { message }),
                    ..app
                },
                UiActionView::Nothing,
            ),
        },
        _ => (app, UiActionView::Nothing),
    }
}

/// The launcher as a state machine: the state after an event, and the action
/// that the outside world is asked for.
pub open spec fn step(app: LauncherAppView, event: UiEventView) -> (LauncherAppView, UiActionView) {
    match event {
        UiEventView::ConfigsDirChosen { dir, listing } => (
            LauncherAppView {
                selected_idx: None,
                ..rescanned(LauncherAppView { configs_dir: dir, ..app }, listing)
            },
            UiActionView::Nothing,
        ),
        UiEventView::Refreshed { listing } => (rescanned(app, listing), UiActionView::Nothing),
        UiEventView::FilterChanged { text } => (
            LauncherAppView { filter: text, ..app },
            UiActionView::Nothing,
        ),
        UiEventView::FilterCleared => (
            LauncherAppView { filter: Seq::empty(), ..app },
            UiActionView::Nothing,
        ),
        UiEventView::RowClicked { index } => (clicked(app, index), UiActionView::Nothing),
        UiEventView::RowDoubleClicked { index } => if index < app.available_configs.len() {
            launch_requested(clicked(app, index))
        } else {
            (app, UiActionView::Nothing)
        },
        UiEventView::ConfigBrowsed { file } => (browsed(app, file), UiActionView::Nothing),
        UiEventView::ServerDirChosen { dir } => (
            LauncherAppView {
                settings: AppSettingsView {
                    last_config: app.settings.last_config,
                    server_dir: Some(dir),
                },
                ..app
            },
            UiActionView::SaveSettings,
        ),
        UiEventView::LaunchClicked => launch_requested(app),
        UiEventView::ExecutableChecked { exists } => executable_checked(app, exists),
        UiEventView::SpawnReturned { failure } => spawn_returned(app, failure),
    }
}

/// The command line that is shown for the selected configuration.
pub open spec fn preview_of(app: LauncherAppView) -> Option<Seq<char>> {
    match app.selected_idx {
        Some(i) => if i < app.available_configs.len() {
            Some(
                preview_text(
                    server_exe_of(app.settings, app.exe_dir),
                    app.fixed_args,
                    app.available_configs[i as int],
                ),
            )
        } else {
            None
        },
        None => None,
    }
}

/// The selection, if there is one, points into the catalogue.
pub open spec fn selection_in_range(app: LauncherAppView) -> bool {
    app.selected_idx is Some ==> app.selected_idx->0 < app.available_configs.len()
}

/// The three steps of a launch that finds its executable: the request, the
/// answer that the executable exists, and the return of the spawn.
pub open spec fn launch_run(app: LauncherAppView, failure: Option<Seq<char>>) -> (
    LauncherAppView,
    Seq<UiActionView>,
) {
    let (checking, first) = step(app, UiEventView::LaunchClicked);
    let (spawning, second) = step(checking, UiEventView::ExecutableChecked { exists: true });
    let (done, third) = step(spawning, UiEventView::SpawnReturned { failure });
    (done, seq![first, second, third])
}

/// No event makes a selection point outside the catalogue.
pub proof fn lemma_selection_stays_in_range(app: LauncherAppView, event: UiEventView)
    requires
        selection_in_range(app),
    ensures
        selection_in_range(step(app, event).0),
{
}

/// The selection with which the launcher starts points into its catalogue.
pub proof fn lemma_started_selection_in_range(
    settings: AppSettingsView,
    exe_dir: Seq<char>,
    fixed_args: Seq<Seq<char>>,
    listing: Option<Seq<DirEntryView>>,
)
    ensures
        selection_in_range(started(settings, exe_dir, fixed_args, listing)),
{
}

/// Nothing is spawned but in answer to the report that the executable of the
/// planned launch exists, and then it is the plan that is spawned.
pub proof fn lemma_spawn_only_after_executable_found(app: LauncherAppView, event: UiEventView)
    requires
        step(app, event).1 is SpawnDetached,
    ensures
        event == (UiEventView::ExecutableChecked { exists: true }),
        app.pending is Checking,
        step(app, event).1 == (UiActionView::SpawnDetached {
            argv: app.pending->Checking_0.argv,
            working_dir: app.pending->Checking_0.working_dir,
        }),
{
}

/// A launch whose executable does not exist spawns nothing: the request asks
/// for the executable at the path that the preferences give, and the answer
/// "missing" ends the launch with the report that names this path. The
/// preferences stay as they were, and a late return of a spawn is ignored.
pub proof fn lemma_missing_executable_spawns_nothing(app: LauncherAppView, index: usize)
    requires
        app.selected_idx == Some(index),
        index < app.available_configs.len(),
    ensures
        ({
            let path = server_exe_of(app.settings, app.exe_dir);
            let (checking, first) = step(app, UiEventView::LaunchClicked);
            let (ended, second) = step(checking, UiEventView::ExecutableChecked { exists: false });
            &&& first == UiActionView::CheckExecutable { path }
            &&& second == UiActionView::Nothing
            &&& ended.pending == PendingView::Idle
            &&& ended.status == error_text(LaunchErrorView::ExecutableNotFound { path })
            &&& ended.settings == app.settings
            &&& forall|failure: Option<Seq<char>>|
                #[trigger] step(ended, UiEventView::SpawnReturned { failure }) == (
                    ended,
                    UiActionView::Nothing,
                )
        }),
{
}

/// The preferences are saved only when the operator chose a server directory,
/// or when the spawn of a launch returned without failure; then the saved
/// preferences name the launched configuration as the last one, with the server
/// directory as it was, and the launch is over.
pub proof fn lemma_save_only_after_change(app: LauncherAppView, event: UiEventView)
    requires
        step(app, event).1 == UiActionView::SaveSettings,
    ensures
        event is ServerDirChosen || (event == (UiEventView::SpawnReturned { failure: None })
            && app.pending is Spawning && step(app, event).0.pending == PendingView::Idle && step(
            app,
            event,
        ).0.settings == (AppSettingsView {
            last_config: Some(app.pending->Spawning_0.config_path),
            server_dir: app.settings.server_dir,
        })),
{
}

/// A launch that works saves the preferences exactly once, at its end, with
/// the launched configuration as the last one and the server directory as it
/// was; before that it asks for the executable and spawns the planned command.
pub proof fn lemma_successful_launch_saves_once(app: LauncherAppView, index: usize)
    requires
        app.selected_idx == Some(index),
        index < app.available_configs.len(),
    ensures
        ({
            let config = app.available_configs[index as int];
            let plan = planned(app.settings, app.exe_dir, app.fixed_args, config);
            let (done, actions) = launch_run(app, None);
            &&& actions == seq![
                UiActionView::CheckExecutable { path: plan.executable },
                UiActionView::SpawnDetached { argv: plan.argv, working_dir: plan.working_dir },
                UiActionView::SaveSettings,
            ]
            &&& actions.filter(|a: UiActionView| a is SaveSettings).len() == 1
            &&& done.settings == AppSettingsView {
                last_config: Some(config),
                server_dir: app.settings.server_dir,
            }
            &&& done.pending == PendingView::Idle
            &&& done.status == success_text(
                LaunchSuccessView { executable_path: plan.executable, args: plan.argv },
            )
        }),
{
    let (_, actions) = launch_run(app, None);
    reveal_with_fuel(Seq::filter, 4);
    assert(actions.drop_last().drop_last().drop_last() =~= Seq::<UiActionView>::empty());
}

/// A launch whose spawn fails saves nothing and leaves the preferences as
/// they were; the status gives the operating system's message.
pub proof fn lemma_failed_spawn_changes_no_preferences(
    app: LauncherAppView,
    index: usize,
    message: Seq<char>,
)
    requires
        app.selected_idx == Some(index),
        index < app.available_configs.len(),
    ensures
        ({
            let (done, actions) = launch_run(app, Some(message));
            &&& actions[2] == UiActionView::Nothing
            &&& done.settings == app.settings
            &&& done.pending == PendingView::Idle
            &&& done.status == error_text(LaunchErrorView::SpawnFailed { message })
        }),
{
}

/// Where a text stands in a sequence, it has a first position there.
pub proof fn lemma_first_position_exists(paths: Seq<Seq<char>>, path: Seq<char>, k: int)
    requires
        0 <= k < paths.len(),
        paths[k] == path,
    ensures
        exists|i: int| is_first_at(paths, path, i),
    decreases k,
{
    if exists|j: int| 0 <= j < k && paths[j] == path {
        let j = choose|j: int| 0 <= j < k && paths[j] == path;
        lemma_first_position_exists(paths, path, j);
    } else {
        assert(is_first_at(paths, path, k));
    }
}

/// The first position at which `path` stands in `paths`.
pub fn position(paths: &Vec<String>, path: &String) -> (r: Option<usize>)
    ensures
        r == position_of(paths.deep_view(), path@),
{
    let mut i: usize = 0;
    while i < paths.len()
        invariant
            i <= paths.len(),
            forall|j: int| 0 <= j < i ==> paths.deep_view()[j] != path@,
        decreases paths.len() - i,
    {
        if paths[i] == *path {
            assert(is_first_at(paths.deep_view(), path@, i as int));
            let ghost chosen = choose|k: int| is_first_at(paths.deep_view(), path@, k);
            assert(chosen == i);
            return Some(i);
        }
        i += 1;
    }
    None
}

impl LauncherApp {
    /// The directory of the launcher's own executable, given the parent of the
    /// executable's path and the current directory as far as they are known.
    pub fn exe_dir_from(beside: Option<String>, current_dir: Option<String>) -> (dir: String)
        ensures
            dir@ == match (beside, current_dir) {
                (Some(parent), _) => parent@,
                (None, Some(current)) => current@,
                (None, None) => "."@,
            },
    {
        match beside {
            Some(dir) => dir,
            None => match current_dir {
                Some(dir) => dir,
                None => String::from_str("."),
            },
        }
    }

    /// The directory of the launcher's own executable, from the path of the
    /// executable and the current directory as far as the system gave them.
    pub fn exe_dir(current_exe: Option<String>, current_dir: Option<String>) -> (dir: String)
        ensures
            dir@ == exe_dir_of(opt_text(current_exe), opt_text(current_dir)),
    {
        let beside = match &current_exe {
            Some(exe) => parent(exe.as_str()),
            None => None,
        };
        Self::exe_dir_from(beside, current_dir)
    }

    /// The server directory: the one the preferences name, else the directory
    /// of the launcher's own executable.
    pub fn detect_server_dir(settings: &AppSettings, exe_dir: &str) -> (dir: String)
        ensures
            dir@ == server_dir_of(settings@, exe_dir@),
    {
        match &settings.server_dir {
            Some(dir) => dir.clone(),
            None => String::from_str(exe_dir),
        }
    }

    /// The path at which the server executable is expected: its file name
    /// joined to the server directory.
    pub fn server_exe_path(settings: &AppSettings, exe_dir: &str) -> (path: String)
        ensures
            path@ == server_exe_of(settings@, exe_dir@),
    {
        let dir = Self::detect_server_dir(settings, exe_dir);
        join_path(dir.as_str(), "ArmaReforgerServer.exe")
    }

    /// The configurations directory of a fresh launcher.
    pub fn configs_dir_beside(exe_dir: &str) -> (dir: String)
        ensures
            dir@ == default_configs_dir(exe_dir@),
    {
        join_path(exe_dir, "configs")
    }

    /// Starts the launcher with the stored preferences, the directory of its
    /// executable, the fixed arguments and the listing of the directory
    /// `configs` beside the executable. The configuration of the last launch is
    /// selected where the catalogue holds it.
    pub fn new(
        settings: AppSettings,
        exe_dir: String,
        fixed_args: Vec<String>,
        listing: Option<Vec<DirEntry>>,
    ) -> (app: Self)
        ensures
            app@ == started(settings@, exe_dir@, fixed_args.deep_view(), listing_view(listing)),
            selection_in_range(app@),
    {
        let configs_dir = Self::configs_dir_beside(exe_dir.as_str());
        let available_configs = scan(listing);
        let status = scan_status(configs_dir.as_str(), &available_configs);
        let selected_idx = match &settings.last_config {
            Some(last) => position(&available_configs, last),
            None => None,
        };
        LauncherApp {
            settings,
            configs_dir,
            available_configs,
            filter: String::new(),
            selected_idx,
            status,
            exe_dir,
            fixed_args,
            pending: Pending::Idle,
        }
    }

    /// Replaces the catalogue by that of a fresh listing of the configurations
    /// directory and sets the status. The selection survives only where the same
    /// position still holds the same path.
    pub fn refresh_configs(&mut self, listing: Option<Vec<DirEntry>>)
        ensures
            final(self)@ == rescanned(old(self)@, listing_view(listing)),
    {
        let found = scan(listing);
        let keep = match self.selected_idx {
            Some(i) => i < self.available_configs.len() && i < found.len()
                && self.available_configs[i] == found[i],
            None => false,
        };
        if !keep {
            self.selected_idx = None;
        }
        self.status = scan_status(self.configs_dir.as_str(), &found);
        self.available_configs = found;
    }

    /// Takes note of a click on the entry `index`.
    pub fn click(&mut self, index: usize)
        ensures
            final(self)@ == clicked(old(self)@, index),
    {
        if index < self.available_configs.len() {
            self.selected_idx = Some(index);
        }
    }

    /// Takes a file that the operator picked in a dialog into the catalogue,
    /// unless it is there, and selects it.
    pub fn browse(&mut self, file: String)
        ensures
            final(self)@ == browsed(old(self)@, file@),
    {
        let ghost before = self.available_configs.deep_view();
        let found = position(&self.available_configs, &file);
        match found {
            Some(i) => {
                assert(before.contains(file@));
                self.selected_idx = Some(i);
            },
            None => {
                assert(!before.contains(file@)) by {
                    if before.contains(file@) {
                        let k = choose|k: int| 0 <= k < before.len() && before[k] == file@;
                        lemma_first_position_exists(before, file@, k);
                    }
                }
                let last = self.available_configs.len();
                self.available_configs.push(file);
                proof {
                    let after = self.available_configs.deep_view();
                    assert(after =~= before.push(file@));
                    assert(is_first_at(after, file@, last as int));
                    let chosen = choose|k: int| is_first_at(after, file@, k);
                    assert(chosen == last);
                }
                self.selected_idx = Some(last);
            },
        }
    }

    /// Starts a launch of the selected configuration: without a valid
    /// selection it only sets the status, with one it plans the launch and asks
    /// whether the executable exists.
    pub fn launch_selected(&mut self) -> (action: UiAction)
        ensures
            (final(self)@, action@) == launch_requested(old(self)@),
    {
        match self.selected_idx {
            None => {
                self.status = String::from_str("Select a config first.");
                UiAction::Nothing
            },
            Some(i) => {
                if i >= self.available_configs.len() {
                    self.status = String::from_str("Invalid selection.");
                    UiAction::Nothing
                } else {
                    let plan = plan_launch(
                        &self.settings,
                        self.exe_dir.as_str(),
                        &self.fixed_args,
                        self.available_configs[i].as_str(),
                    );
                    let path = plan.executable.clone();
                    self.pending = Pending::Checking(plan);
                    UiAction::CheckExecutable { path }
                }
            },
        }
    }

    /// Takes the answer to the existence check: the spawn follows only where
    /// the executable exists.
    pub fn executable_checked(&mut self, exists: bool) -> (action: UiAction)
        ensures
            (final(self)@, action@) == executable_checked(old(self)@, exists),
    {
        let mut pending = Pending::Idle;
        std::mem::swap(&mut self.pending, &mut pending);
        match pending {
            Pending::Checking(plan) => match check_executable(&plan, exists) {
                Ok(()) => {
                    let action = UiAction::SpawnDetached {
                        argv: copy_texts(&plan.argv),
                        working_dir: plan.working_dir.clone(),
                    };
                    self.pending = Pending::Spawning(plan);
                    action
                },
                Err(error) => {
                    self.status = error.message();
                    UiAction::Nothing
                },
            },
            other => {
                self.pending = other;
                UiAction::Nothing
            },
        }
    }

    /// Takes the return of the spawn: a launch that worked is remembered in
    /// the preferences, which are then to be saved.
    pub fn spawn_returned(&mut self, failure: Option<String>) -> (action: UiAction)
        ensures
            (final(self)@, action@) == spawn_returned(old(self)@, opt_text(failure)),
    {
        let mut pending = Pending::Idle;
        std::mem::swap(&mut self.pending, &mut pending);
        match pending {
            Pending::Spawning(plan) => match finish_launch(&mut self.settings, plan, failure) {
                Ok(success) => {
                    self.status = success.message();
                    UiAction::SaveSettings
                },
                Err(error) => {
                    self.status = error.message();
                    UiAction::Nothing
                },
            },
            other => {
                self.pending = other;
                UiAction::Nothing
            },
        }
    }

    /// Takes an event and says what the outside world is to do next.
    pub fn update(&mut self, event: UiEvent) -> (action: UiAction)
        ensures
            (final(self)@, action@) == step(old(self)@, event@),
            selection_in_range(old(self)@) ==> selection_in_range(final(self)@),
    {
        match event {
            UiEvent::ConfigsDirChosen { dir, listing } => {
                self.configs_dir = dir;
                self.refresh_configs(listing);
                self.selected_idx = None;
                UiAction::Nothing
            },
            UiEvent::Refreshed { listing } => {
                self.refresh_configs(listing);
                UiAction::Nothing
            },
            UiEvent::FilterChanged { text } => {
                self.filter = text;
                UiAction::Nothing
            },
            UiEvent::FilterCleared => {
                self.filter = String::new();
                UiAction::Nothing
            },
            UiEvent::RowClicked { index } => {
                self.click(index);
                UiAction::Nothing
            },
            UiEvent::RowDoubleClicked { index } => {
                if index < self.available_configs.len() {
                    self.click(index);
                    self.launch_selected()
                } else {
                    UiAction::Nothing
                }
            },
            UiEvent::ConfigBrowsed { file } => {
                self.browse(file);
                UiAction::Nothing
            },
            UiEvent::ServerDirChosen { dir } => {
                self.settings.server_dir = Some(dir);
                UiAction::SaveSettings
            },
            UiEvent::LaunchClicked => self.launch_selected(),
            UiEvent::ExecutableChecked { exists } => self.executable_checked(exists),
            UiEvent::SpawnReturned { failure } => self.spawn_returned(failure),
        }
    }

    /// The command line of a launch of the selected configuration, for
    /// display; `None` without a valid selection.
    pub fn command_preview(&self) -> (text: Option<String>)
        ensures
            opt_text(text) == preview_of(self@),
    {
        match self.selected_idx {
            Some(i) => {
                if i < self.available_configs.len() {
                    let exe = Self::server_exe_path(&self.settings, self.exe_dir.as_str());
                    Some(preview(exe.as_str(), &self.fixed_args, self.available_configs[i].as_str()))
                } else {
                    None
                }
            },
            None => None,
        }
    }

    /// The indices of the catalogue's entries that the query selects, in their order.
    pub fn filtered_indices(&self) -> (indices: Vec<usize>)
        ensures
            indices@ == filtered(self@.available_configs, self@.filter),
            is_blank(self@.filter) ==> indices@ == all_indices(self@.available_configs.len()),
            forall|k: int|
                0 <= k < indices.len() ==> (#[trigger] indices[k]) < self.available_configs.len(),
    {
        filter(&self.available_configs, self.filter.as_str())
    }
}

} // verus!

//! The launch of the server: where its executable is looked for, what a
//! launch is going to start, and what each answer of the outside world (the
//! executable exists or not, the spawn worked or not) leads to.

use crate::command::{build, command_line, show_line, shown_line};
use crate::launcher_app::LauncherApp;
use crate::paths::joined_path;
use crate::settings::{AppSettings, AppSettingsView};
use vstd::prelude::*;

verus! {

/// The file name of the server executable.
pub open spec fn server_exe_name() -> Seq<char> {
    "ArmaReforgerServer.exe"@
}

/// The directory of the server: the one the preferences name, else the
/// directory of the launcher's own executable.
pub open spec fn server_dir_of(settings: AppSettingsView, exe_dir: Seq<char>) -> Seq<char> {
    match settings.server_dir {
        Some(dir) => dir,
        None => exe_dir,
    }
}

/// The path of the server executable: its file name joined to the server directory.
pub open spec fn server_exe_of(settings: AppSettingsView, exe_dir: Seq<char>) -> Seq<char> {
    joined_path(server_dir_of(settings, exe_dir), server_exe_name())
}

/// What a launch is going to start.
#[derive(Clone, Debug, PartialEq)]
pub struct LaunchPlan {
    /// The path of the server executable.
    pub executable: String,
    /// The directory in which the server is started.
    pub working_dir: String,
    /// The argument vector, the executable first.
    pub argv: Vec<String>,
    /// The configuration file that the server is started with.
    pub config_path: String,
}

/// A launch plan as plain values.
pub struct LaunchPlanView {
    pub executable: Seq<char>,
    pub working_dir: Seq<char>,
    pub argv: Seq<Seq<char>>,
    pub config_path: Seq<char>,
}

impl View for LaunchPlan {
    type V = LaunchPlanView;

    open spec fn view(&self) -> LaunchPlanView {
        LaunchPlanView {
            executable: self.executable@,
            working_dir: self.working_dir@,
            argv: self.argv.deep_view(),
            config_path: self.config_path@,
        }
    }
}

/// The plan of a launch with the given preferences, fixed arguments and configuration.
pub open spec fn planned(
    settings: AppSettingsView,
    exe_dir: Seq<char>,
    fixed_args: Seq<Seq<char>>,
    config_path: Seq<char>,
) -> LaunchPlanView {
    LaunchPlanView {
        executable: server_exe_of(settings, exe_dir),
        working_dir: server_dir_of(settings, exe_dir),
        argv: command_line(server_exe_of(settings, exe_dir), fixed_args, config_path),
        config_path,
    }
}

/// Why a launch did not start the server.
#[derive(Clone, Debug, PartialEq)]
pub enum LaunchError {
    /// No file stands at the path of the server executable.
    ExecutableNotFound { path: String },
    /// The operating system refused to start the process.
    SpawnFailed { message: String },
}

/// A launch error as plain values.
pub enum LaunchErrorView {
    ExecutableNotFound { path: Seq<char> },
    SpawnFailed { message: Seq<char> },
}

impl View for LaunchError {
    type V = LaunchErrorView;

    open spec fn view(&self) -> LaunchErrorView {
        match self {
            LaunchError::ExecutableNotFound { path } => LaunchErrorView::ExecutableNotFound {
                path: path@,
            },
            LaunchError::SpawnFailed { message } => LaunchErrorView::SpawnFailed {
                message: message@,
            },
        }
    }
}

/// What a launch started.
#[derive(Clone, Debug, PartialEq)]
pub struct LaunchSuccess {
    /// The path of the server executable.
    pub executable_path: String,
    /// The argument vector that the server was started with, the executable first.
    pub args: Vec<String>,
}

/// A launch success as plain values.
pub struct LaunchSuccessView {
    pub executable_path: Seq<char>,
    pub args: Seq<Seq<char>>,
}

impl View for LaunchSuccess {
    type V = LaunchSuccessView;

    open spec fn view(&self) -> LaunchSuccessView {
        LaunchSuccessView { executable_path: self.executable_path@, args: self.args.deep_view() }
    }
}

/// The text that reports a launch error to the operator.
pub open spec fn error_text(error: LaunchErrorView) -> Seq<char> {
    match error {
        LaunchErrorView::ExecutableNotFound { path } => "Server exe not found: "@ + path
            + "\nSet the correct server directory."@,
        LaunchErrorView::SpawnFailed { message } => "Failed to launch: "@ + message,
    }
}

/// The text that reports a launch to the operator.
pub open spec fn success_text(success: LaunchSuccessView) -> Seq<char> {
    "Launched:\n"@ + shown_line(success.args)
}

impl LaunchError {
    /// The text that reports this error to the operator.
    pub fn message(&self) -> (text: String)
        ensures
            text@ == error_text(self@),
    {
        match self {
            LaunchError::ExecutableNotFound { path } => {
                let mut text = String::from_str("Server exe not found: ");
                text.append(path.as_str());
                text.append("\nSet the correct server directory.");
                text
            },
            LaunchError::SpawnFailed { message } => {
                String::from_str("Failed to launch: ").concat(message.as_str())
            },
        }
    }
}

impl LaunchSuccess {
    /// The text that reports this launch to the operator.
    pub fn message(&self) -> (text: String)
        ensures
            text@ == success_text(self@),
    {
        let line = show_line(&self.args);
        String::from_str("Launched:\n").concat(line.as_str())
    }
}

/// Plans a launch: resolves the executable and the working directory and
/// builds the argument vector. Nothing is started.
pub fn plan_launch(
    settings: &AppSettings,
    exe_dir: &str,
    fixed_args: &Vec<String>,
    config_path: &str,
) -> (plan: LaunchPlan)
    ensures
        plan@ == planned(settings@, exe_dir@, fixed_args.deep_view(), config_path@),
{
    let working_dir = LauncherApp::detect_server_dir(settings, exe_dir);
    let executable = LauncherApp::server_exe_path(settings, exe_dir);
    let argv = build(executable.as_str(), fixed_args, config_path);
    LaunchPlan { executable, working_dir, argv, config_path: String::from_str(config_path) }
}

/// Decides on a plan once it is known whether its executable exists: a
/// missing executable ends the launch, and nothing may be spawned.
pub fn check_executable(plan: &LaunchPlan, exists: bool) -> (r: Result<(), LaunchError>)
    ensures
        exists ==> r is Ok,
        !exists ==> r is Err && r->Err_0@ == (LaunchErrorView::ExecutableNotFound {
            path: plan@.executable,
        }),
{
    if exists {
        Ok(())
    } else {
        Err(LaunchError::ExecutableNotFound { path: plan.executable.clone() })
    }
}

/// Concludes a launch once the spawn has returned, `failure` holding the
/// operating system's message where it failed. A launch that worked is
/// remembered in the preferences, which the caller then saves; one that
/// failed leaves them as they were.
pub fn finish_launch(settings: &mut AppSettings, plan: LaunchPlan, failure: Option<String>) -> (r:
    Result<LaunchSuccess, LaunchError>)
    ensures
        failure is None ==> r is Ok && r->Ok_0@ == (LaunchSuccessView {
            executable_path: plan@.executable,
            args: plan@.argv,
        }) && final(settings)@ == (AppSettingsView {
            last_config: Some(plan@.config_path),
            server_dir: old(settings)@.server_dir,
        }),
        failure is Some ==> r is Err && r->Err_0@ == (LaunchErrorView::SpawnFailed {
            message: failure->0@,
        }) && final(settings)@ == old(settings)@,
{
    match failure {
        None => {
            settings.last_config = Some(plan.config_path);
            Ok(LaunchSuccess { executable_path: plan.executable, args: plan.argv })
        },
        Some(message) => Err(LaunchError::SpawnFailed { message }),
    }
}

} // verus!

//! Hiding the application in front and launching one by name.
//!
//! Each action comes in two halves: the command to run on a platform, and the
//! meaning of how that command ended.

use crate::platform::{CommandLine, CommandLineView, CommandOutcome, Platform};
use crate::text::{contains, contains_text};
use vstd::prelude::*;

verus! {

/// Why an application action failed.
#[derive(Debug, PartialEq, Eq)]
pub enum AppControlError {
    /// The command ran and reported failure; the text is what it wrote to
    /// its error stream.
    ExecutionError(String),
    /// There are no application commands for this platform.
    UnsupportedPlatform,
    /// No application of the given name exists.
    AppNotFoundError(String),
    /// The command could not be started.
    SystemError(String),
}

impl AppControlError {
    /// The text shown to a user for this error.
    pub open spec fn text(self) -> Seq<char> {
        match self {
            AppControlError::ExecutionError(detail) => "Failed to execute app control command: "@
                + detail@,
            AppControlError::UnsupportedPlatform => "Platform not supported"@,
            AppControlError::AppNotFoundError(name) => "Application not found: "@ + name@,
            AppControlError::SystemError(detail) => "System error: "@ + detail@,
        }
    }

    /// The text shown to a user for this error.
    pub fn message(&self) -> (message: String)
        ensures
            message@ == self.text(),
    {
        match self {
            AppControlError::ExecutionError(detail) => {
                String::from_str("Failed to execute app control command: ").concat(detail.as_str())
            },
            AppControlError::UnsupportedPlatform => String::from_str("Platform not supported"),
            AppControlError::AppNotFoundError(name) => {
                String::from_str("Application not found: ").concat(name.as_str())
            },
            AppControlError::SystemError(detail) => {
                String::from_str("System error: ").concat(detail.as_str())
            },
        }
    }
}

/// The AppleScript that hides whichever application is in front.
pub const HIDE_SCRIPT_MACOS: &'static str = r#"
        tell application "System Events"
            set frontApp to first application process whose frontmost is true
            set visible of frontApp to false
        end tell
    "#;

/// The PowerShell script that hides whichever window is in front.
pub const HIDE_SCRIPT_WINDOWS: &'static str = r#"
        Add-Type @"
        using System;
        using System.Runtime.InteropServices;
        
        public class WindowHelper {
            [DllImport("user32.dll")]
            public static extern IntPtr GetForegroundWindow();
            
            [DllImport("user32.dll")]
            public static extern bool ShowWindow(IntPtr hWnd, int nCmdShow);
        }
"@
        
        $hwnd = [WindowHelper]::GetForegroundWindow()
        [WindowHelper]::ShowWindow($hwnd, 0) # SW_HIDE = 0
    "#;

/// What `open` writes when it knows no application of the name it was given.
pub const NOT_FOUND_MARKER: &'static str = "Unable to find application";

/// The macOS command that hides the application in front: `osascript` with
/// [`HIDE_SCRIPT_MACOS`].
pub fn hide_current_app_macos() -> (command: CommandLine)
    ensures
        command@ == (CommandLineView {
            program: "osascript"@,
            args: seq!["-e"@, HIDE_SCRIPT_MACOS@],
        }),
{
    let command = CommandLine::with_one("osascript", "-e").and(HIDE_SCRIPT_MACOS);
    assert(command@.args =~= seq!["-e"@, HIDE_SCRIPT_MACOS@]);
    command
}

/// The Windows command that hides the window in front: PowerShell with
/// [`HIDE_SCRIPT_WINDOWS`].
pub fn hide_current_app_windows() -> (command: CommandLine)
    ensures
        command@ == (CommandLineView {
            program: "powershell"@,
            args: seq!["-Command"@, HIDE_SCRIPT_WINDOWS@],
        }),
{
    let command = CommandLine::with_one("powershell", "-Command").and(HIDE_SCRIPT_WINDOWS);
    assert(command@.args =~= seq!["-Command"@, HIDE_SCRIPT_WINDOWS@]);
    command
}

/// The command that hides the application in front on `platform`, whichever
/// application that is.
pub fn hide_current_app(platform: Platform) -> (result: Result<CommandLine, AppControlError>)
    ensures
        match platform {
            Platform::MacOs => result matches Ok(command) && command@ == (CommandLineView {
                program: "osascript"@,
                args: seq!["-e"@, HIDE_SCRIPT_MACOS@],
            }),
            Platform::Windows => result matches Ok(command) && command@ == (CommandLineView {
                program: "powershell"@,
                args: seq!["-Command"@, HIDE_SCRIPT_WINDOWS@],
            }),
            Platform::Unsupported => result == Err::<CommandLine, AppControlError>(
                AppControlError::UnsupportedPlatform,
            ),
        },
{
    match platform {
        Platform::MacOs => Ok(hide_current_app_macos()),
        Platform::Windows => Ok(hide_current_app_windows()),
        Platform::Unsupported => Err(AppControlError::UnsupportedPlatform),
    }
}

/// What the end of the hide command means: success, or why not.
pub open spec fn hide_result(outcome: CommandOutcome) -> Result<(), AppControlError> {
    match outcome {
        CommandOutcome::NotStarted(why) => Err(AppControlError::SystemError(why)),
        CommandOutcome::Exited { success, stdout, stderr } => if success {
            Ok(())
        } else {
            Err(AppControlError::ExecutionError(stderr))
        },
    }
}

/// Judges how the command of [`hide_current_app`] ended.
pub fn hide_current_app_outcome(outcome: CommandOutcome) -> (result: Result<(), AppControlError>)
    ensures
        result == hide_result(outcome),
{
    match outcome {
        CommandOutcome::NotStarted(why) => Err(AppControlError::SystemError(why)),
        CommandOutcome::Exited { success, stdout, stderr } => if success {
            Ok(())
        } else {
            Err(AppControlError::ExecutionError(stderr))
        },
    }
}

/// The macOS command that launches the application called `app_name`.
pub fn launch_application_macos(app_name: &str) -> (command: CommandLine)
    ensures
        command@ == (CommandLineView { program: "open"@, args: seq!["-a"@, app_name@] }),
{
    let command = CommandLine::with_one("open", "-a").and(app_name);
    assert(command@.args =~= seq!["-a"@, app_name@]);
    command
}

/// The Windows command that launches the application called `app_name`.
pub fn launch_application_windows(app_name: &str) -> (command: CommandLine)
    ensures
        command@ == (CommandLineView {
            program: "cmd"@,
            args: seq!["/C"@, "start"@, ""@, app_name@],
        }),
{
    let command = CommandLine::with_one("cmd", "/C").and("start").and("").and(app_name);
    assert(command@.args =~= seq!["/C"@, "start"@, ""@, app_name@]);
    command
}

/// The command that launches the application called `app_name` on
/// `platform`. The name is the one a user knows the application by, not a
/// path.
pub fn launch_application(platform: Platform, app_name: &str) -> (result: Result<
    CommandLine,
    AppControlError,
>)
    ensures
        match platform {
            Platform::MacOs => result matches Ok(command) && command@ == (CommandLineView {
                program: "open"@,
                args: seq!["-a"@, app_name@],
            }),
            Platform::Windows => result matches Ok(command) && command@ == (CommandLineView {
                program: "cmd"@,
                args: seq!["/C"@, "start"@, ""@, app_name@],
            }),
            Platform::Unsupported => result == Err::<CommandLine, AppControlError>(
                AppControlError::UnsupportedPlatform,
            ),
        },
{
    match platform {
        Platform::MacOs => Ok(launch_application_macos(app_name)),
        Platform::Windows => Ok(launch_application_windows(app_name)),
        Platform::Unsupported => Err(AppControlError::UnsupportedPlatform),
    }
}

/// Whether the launch command of `platform`, having failed with `stderr`,
/// says that the application does not exist. Only macOS tells.
pub open spec fn says_not_found(platform: Platform, stderr: Seq<char>) -> bool {
    platform == Platform::MacOs && contains(stderr, NOT_FOUND_MARKER@)
}

/// Judges how the command of [`launch_application`] ended for the
/// application called `app_name`.
///
/// A command that ran and failed means that the application was not found,
/// where the platform says so, and an execution error otherwise.
pub fn launch_application_outcome(
    platform: Platform,
    app_name: &str,
    outcome: CommandOutcome,
) -> (result: Result<(), AppControlError>)
    ensures
        platform == Platform::Unsupported ==> result == Err::<(), AppControlError>(
            AppControlError::UnsupportedPlatform,
        ),
        platform != Platform::Unsupported ==> match outcome {
            CommandOutcome::NotStarted(why) => result == Err::<(), AppControlError>(
                AppControlError::SystemError(why),
            ),
            CommandOutcome::Exited { success, stdout, stderr } => if success {
                result is Ok
            } else if says_not_found(platform, stderr@) {
                result matches Err(AppControlError::AppNotFoundError(name)) && name@ == app_name@
            } else {
                result == Err::<(), AppControlError>(AppControlError::ExecutionError(stderr))
            },
        },
{
    if platform == Platform::Unsupported {
        return Err(AppControlError::UnsupportedPlatform);
    }
    match outcome {
        CommandOutcome::NotStarted(why) => Err(AppControlError::SystemError(why)),
        CommandOutcome::Exited { success, stdout, stderr } => {
            if success {
                Ok(())
            } else if platform == Platform::MacOs && contains_text(
                stderr.as_str(),
                NOT_FOUND_MARKER,
            ) {
                Err(AppControlError::AppNotFoundError(String::from_str(app_name)))
            } else {
                Err(AppControlError::ExecutionError(stderr))
            }
        },
    }
}

} // verus!

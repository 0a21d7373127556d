use schoolhax::app_control::{
    hide_current_app, hide_current_app_macos, hide_current_app_outcome, hide_current_app_windows,
    launch_application, launch_application_macos, launch_application_outcome,
    launch_application_windows, AppControlError, HIDE_SCRIPT_MACOS, HIDE_SCRIPT_WINDOWS,
};
use schoolhax::platform::{CommandLine, CommandOutcome, Platform};
use schoolhax::wifi::{
    is_wifi_enabled, is_wifi_enabled_macos, is_wifi_enabled_outcome, is_wifi_enabled_windows,
    toggle_wifi, toggle_wifi_macos, toggle_wifi_outcome, toggle_wifi_windows, WiFiError,
};

fn command(program: &str, args: &[&str]) -> CommandLine {
    CommandLine {
        program: program.to_string(),
        args: args.iter().map(|arg| arg.to_string()).collect(),
    }
}

fn exited(success: bool, stdout: &str, stderr: &str) -> CommandOutcome {
    CommandOutcome::Exited { success, stdout: stdout.to_string(), stderr: stderr.to_string() }
}

fn not_started(why: &str) -> CommandOutcome {
    CommandOutcome::NotStarted(why.to_string())
}

#[test]
fn command_lines_are_built_in_order() {
    assert_eq!(CommandLine::with_one("open", "-a"), command("open", &["-a"]));
    assert_eq!(CommandLine::with_one("open", "-a").and("Notes"), command("open", &["-a", "Notes"]));
    assert_eq!(CommandLine::with_one("p", "").and("x").and(""), command("p", &["", "x", ""]));
}

#[test]
fn wifi_toggle_commands() {
    assert_eq!(toggle_wifi_macos(true), command("networksetup", &["-setairportpower", "en0", "on"]));
    assert_eq!(toggle_wifi_macos(false), command("networksetup", &["-setairportpower", "en0", "off"]));
    assert_eq!(toggle_wifi_windows(true), command("powershell", &["-Command", "netsh wlan connect"]));
    assert_eq!(
        toggle_wifi_windows(false),
        command("powershell", &["-Command", "netsh wlan disconnect"])
    );
    assert_eq!(toggle_wifi(Platform::MacOs, false), Ok(toggle_wifi_macos(false)));
    assert_eq!(toggle_wifi(Platform::MacOs, true), Ok(toggle_wifi_macos(true)));
    assert_eq!(toggle_wifi(Platform::Windows, true), Ok(toggle_wifi_windows(true)));
    assert_eq!(toggle_wifi(Platform::Windows, false), Ok(toggle_wifi_windows(false)));
}

#[test]
fn wifi_is_unsupported_elsewhere() {
    assert_eq!(toggle_wifi(Platform::Unsupported, true), Err(WiFiError::UnsupportedPlatform));
    assert_eq!(toggle_wifi(Platform::Unsupported, false), Err(WiFiError::UnsupportedPlatform));
    assert_eq!(is_wifi_enabled(Platform::Unsupported), Err(WiFiError::UnsupportedPlatform));
    assert_eq!(
        is_wifi_enabled_outcome(Platform::Unsupported, exited(true, "On", "")),
        Err(WiFiError::UnsupportedPlatform)
    );
    assert_eq!(
        is_wifi_enabled_outcome(Platform::Unsupported, not_started("x")),
        Err(WiFiError::UnsupportedPlatform)
    );
}

#[test]
fn wifi_toggle_outcomes() {
    assert_eq!(toggle_wifi_outcome(exited(true, "", "")), Ok(()));
    assert_eq!(toggle_wifi_outcome(exited(true, "out", "warning")), Ok(()));
    assert_eq!(
        toggle_wifi_outcome(exited(false, "out", "en0 is not a Wi-Fi interface.\n")),
        Err(WiFiError::ExecutionError("en0 is not a Wi-Fi interface.\n".to_string()))
    );
    assert_eq!(
        toggle_wifi_outcome(not_started("No such file or directory (os error 2)")),
        Err(WiFiError::SystemError("No such file or directory (os error 2)".to_string()))
    );
}

#[test]
fn wifi_state_commands() {
    assert_eq!(is_wifi_enabled_macos(), command("networksetup", &["-getairportpower", "en0"]));
    assert_eq!(
        is_wifi_enabled_windows(),
        command(
            "powershell",
            &[
                "-Command",
                "Get-NetAdapter | Where-Object {$_.Name -like '*Wi-Fi*' -and $_.Status -eq 'Up'} | Select-Object -ExpandProperty Status"
            ]
        )
    );
    assert_eq!(is_wifi_enabled(Platform::MacOs), Ok(is_wifi_enabled_macos()));
    assert_eq!(is_wifi_enabled(Platform::Windows), Ok(is_wifi_enabled_windows()));
}

#[test]
fn wifi_state_on_macos_looks_for_on() {
    let state = |stdout: &str| is_wifi_enabled_outcome(Platform::MacOs, exited(true, stdout, ""));
    assert_eq!(state("Wi-Fi Power (en0): On\n"), Ok(true));
    assert_eq!(state("Wi-Fi Power (en0): Off\n"), Ok(false));
    assert_eq!(state(""), Ok(false));
    assert_eq!(state("on"), Ok(false));
    assert_eq!(state("Only"), Ok(true));
}

#[test]
fn wifi_state_on_windows_is_the_word_up() {
    let state = |stdout: &str| is_wifi_enabled_outcome(Platform::Windows, exited(true, stdout, ""));
    assert_eq!(state("Up\r\n"), Ok(true));
    assert_eq!(state("  Up"), Ok(true));
    assert_eq!(state("Up"), Ok(true));
    assert_eq!(state(""), Ok(false));
    assert_eq!(state("Up\r\nUp\r\n"), Ok(false));
    assert_eq!(state("up"), Ok(false));
    assert_eq!(state("Upp"), Ok(false));
    assert_eq!(state("On"), Ok(false));
}

#[test]
fn wifi_state_failures() {
    assert_eq!(
        is_wifi_enabled_outcome(Platform::MacOs, exited(false, "On", "denied")),
        Err(WiFiError::ExecutionError("denied".to_string()))
    );
    assert_eq!(
        is_wifi_enabled_outcome(Platform::Windows, exited(false, "Up", "")),
        Err(WiFiError::ExecutionError(String::new()))
    );
    assert_eq!(
        is_wifi_enabled_outcome(Platform::Windows, not_started("program not found")),
        Err(WiFiError::SystemError("program not found".to_string()))
    );
}

#[test]
fn wifi_error_messages() {
    assert_eq!(
        WiFiError::ExecutionError("boom".to_string()).message(),
        "Failed to execute WiFi command: boom"
    );
    assert_eq!(WiFiError::UnsupportedPlatform.message(), "Platform not supported");
    assert_eq!(WiFiError::SystemError("boom".to_string()).message(), "System error: boom");
}

#[test]
fn hide_commands() {
    assert_eq!(hide_current_app_macos(), command("osascript", &["-e", HIDE_SCRIPT_MACOS]));
    assert_eq!(hide_current_app_windows(), command("powershell", &["-Command", HIDE_SCRIPT_WINDOWS]));
    assert_eq!(hide_current_app(Platform::MacOs), Ok(hide_current_app_macos()));
    assert_eq!(hide_current_app(Platform::Windows), Ok(hide_current_app_windows()));
    assert_eq!(hide_current_app(Platform::Unsupported), Err(AppControlError::UnsupportedPlatform));
}

#[test]
fn hide_scripts() {
    assert!(HIDE_SCRIPT_MACOS.contains("tell application \"System Events\""));
    assert!(HIDE_SCRIPT_MACOS.contains("set visible of frontApp to false"));
    assert_eq!(HIDE_SCRIPT_MACOS.lines().count(), 6);
    assert!(HIDE_SCRIPT_WINDOWS.contains("[WindowHelper]::ShowWindow($hwnd, 0) # SW_HIDE = 0"));
    assert!(HIDE_SCRIPT_WINDOWS.contains("\n\"@\n"));
    assert_eq!(HIDE_SCRIPT_WINDOWS.lines().count(), 17);
}

#[test]
fn hide_outcomes() {
    assert_eq!(hide_current_app_outcome(exited(true, "", "")), Ok(()));
    assert_eq!(
        hide_current_app_outcome(exited(false, "", "execution error: not allowed")),
        Err(AppControlError::ExecutionError("execution error: not allowed".to_string()))
    );
    assert_eq!(
        hide_current_app_outcome(not_started("osascript: not found")),
        Err(AppControlError::SystemError("osascript: not found".to_string()))
    );
}

#[test]
fn launch_commands() {
    assert_eq!(launch_application_macos("Notes"), command("open", &["-a", "Notes"]));
    assert_eq!(launch_application_windows("notepad"), command("cmd", &["/C", "start", "", "notepad"]));
    assert_eq!(launch_application(Platform::MacOs, "Google Chrome"), Ok(command("open", &["-a", "Google Chrome"])));
    assert_eq!(
        launch_application(Platform::Windows, "calc"),
        Ok(command("cmd", &["/C", "start", "", "calc"]))
    );
    assert_eq!(
        launch_application(Platform::Unsupported, "calc"),
        Err(AppControlError::UnsupportedPlatform)
    );
}

#[test]
fn launch_outcomes_on_macos_tell_a_missing_application() {
    assert_eq!(launch_application_outcome(Platform::MacOs, "Notes", exited(true, "", "")), Ok(()));
    assert_eq!(
        launch_application_outcome(
            Platform::MacOs,
            "Nope",
            exited(false, "", "Unable to find application named 'Nope'\n")
        ),
        Err(AppControlError::AppNotFoundError("Nope".to_string()))
    );
    assert_eq!(
        launch_application_outcome(Platform::MacOs, "Notes", exited(false, "", "The file is damaged")),
        Err(AppControlError::ExecutionError("The file is damaged".to_string()))
    );
    assert_eq!(
        launch_application_outcome(Platform::MacOs, "Notes", not_started("open: not found")),
        Err(AppControlError::SystemError("open: not found".to_string()))
    );
}

#[test]
fn launch_outcomes_on_windows() {
    assert_eq!(launch_application_outcome(Platform::Windows, "calc", exited(true, "", "")), Ok(()));
    assert_eq!(
        launch_application_outcome(
            Platform::Windows,
            "nope",
            exited(false, "", "Unable to find application named 'nope'")
        ),
        Err(AppControlError::ExecutionError("Unable to find application named 'nope'".to_string()))
    );
    assert_eq!(
        launch_application_outcome(Platform::Windows, "calc", not_started("cmd missing")),
        Err(AppControlError::SystemError("cmd missing".to_string()))
    );
}

#[test]
fn launch_outcome_is_unsupported_elsewhere() {
    assert_eq!(
        launch_application_outcome(Platform::Unsupported, "calc", exited(true, "", "")),
        Err(AppControlError::UnsupportedPlatform)
    );
}

#[test]
fn app_control_error_messages() {
    assert_eq!(
        AppControlError::ExecutionError("boom".to_string()).message(),
        "Failed to execute app control command: boom"
    );
    assert_eq!(AppControlError::UnsupportedPlatform.message(), "Platform not supported");
    assert_eq!(
        AppControlError::AppNotFoundError("Notes".to_string()).message(),
        "Application not found: Notes"
    );
    assert_eq!(AppControlError::SystemError("boom".to_string()).message(), "System error: boom");
}

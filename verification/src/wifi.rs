//! Switching the Wi-Fi interface on and off, and reading its state.
//!
//! Each action comes in two halves: the command to run on a platform, and the
//! meaning of how that command ended.

use crate::platform::{CommandLine, CommandLineView, CommandOutcome, Platform};
use crate::text::{chars_of, contains, contains_text, trim, trim_bounds};
use vstd::prelude::*;

verus! {

/// Why a Wi-Fi action failed.
#[derive(Debug, PartialEq, Eq)]
pub enum WiFiError {
    /// The command ran and reported failure; the text is what it wrote to
    /// its error stream.
    ExecutionError(String),
    /// There are no Wi-Fi commands for this platform.
    UnsupportedPlatform,
    /// The command could not be started.
    SystemError(String),
}

impl WiFiError {
    /// The text shown to a user for this error.
    pub open spec fn text(self) -> Seq<char> {
        match self {
            WiFiError::ExecutionError(detail) => "Failed to execute WiFi command: "@ + detail@,
            WiFiError::UnsupportedPlatform => "Platform not supported"@,
            WiFiError::SystemError(detail) => "System error: "@ + detail@,
        }
    }

    /// The text shown to a user for this error.
    pub fn message(&self) -> (message: String)
        ensures
            message@ == self.text(),
    {
        match self {
            WiFiError::ExecutionError(detail) => {
                String::from_str("Failed to execute WiFi command: ").concat(detail.as_str())
            },
            WiFiError::UnsupportedPlatform => String::from_str("Platform not supported"),
            WiFiError::SystemError(detail) => {
                String::from_str("System error: ").concat(detail.as_str())
            },
        }
    }
}

/// The macOS command that switches Wi-Fi on or off: `networksetup` on the
/// interface `en0`.
pub fn toggle_wifi_macos(enable: bool) -> (command: CommandLine)
    ensures
        command@ == (CommandLineView {
            program: "networksetup"@,
            args: seq!["-setairportpower"@, "en0"@, if enable { "on"@ } else { "off"@ }],
        }),
{
    let status = if enable {
        "on"
    } else {
        "off"
    };
    let command = CommandLine::with_one("networksetup", "-setairportpower").and("en0").and(status);
    assert(command@.args =~= seq!["-setairportpower"@, "en0"@, status@]);
    command
}

/// The Windows command that switches Wi-Fi on or off: `netsh wlan`, run by
/// PowerShell.
pub fn toggle_wifi_windows(enable: bool) -> (command: CommandLine)
    ensures
        command@ == (CommandLineView {
            program: "powershell"@,
            args: seq![
                "-Command"@,
                if enable { "netsh wlan connect"@ } else { "netsh wlan disconnect"@ },
            ],
        }),
{
    let script = if enable {
        "netsh wlan connect"
    } else {
        "netsh wlan disconnect"
    };
    let command = CommandLine::with_one("powershell", "-Command").and(script);
    assert(command@.args =~= seq!["-Command"@, script@]);
    command
}

/// The command that switches Wi-Fi on or off on `platform`.
pub fn toggle_wifi(platform: Platform, enable: bool) -> (result: Result<CommandLine, WiFiError>)
    ensures
        match platform {
            Platform::MacOs => result matches Ok(command) && command@ == (CommandLineView {
                program: "networksetup"@,
                args: seq!["-setairportpower"@, "en0"@, if enable { "on"@ } else { "off"@ }],
            }),
            Platform::Windows => result matches Ok(command) && command@ == (CommandLineView {
                program: "powershell"@,
                args: seq![
                    "-Command"@,
                    if enable { "netsh wlan connect"@ } else { "netsh wlan disconnect"@ },
                ],
            }),
            Platform::Unsupported => result == Err::<CommandLine, WiFiError>(
                WiFiError::UnsupportedPlatform,
            ),
        },
{
    match platform {
        Platform::MacOs => Ok(toggle_wifi_macos(enable)),
        Platform::Windows => Ok(toggle_wifi_windows(enable)),
        Platform::Unsupported => Err(WiFiError::UnsupportedPlatform),
    }
}

/// What the end of a Wi-Fi command means: success, or why not.
pub open spec fn wifi_result(outcome: CommandOutcome) -> Result<(), WiFiError> {
    match outcome {
        CommandOutcome::NotStarted(why) => Err(WiFiError::SystemError(why)),
        CommandOutcome::Exited { success, stdout, stderr } => if success {
            Ok(())
        } else {
            Err(WiFiError::ExecutionError(stderr))
        },
    }
}

/// Judges how the command of [`toggle_wifi`] ended.
pub fn toggle_wifi_outcome(outcome: CommandOutcome) -> (result: Result<(), WiFiError>)
    ensures
        result == wifi_result(outcome),
{
    match outcome {
        CommandOutcome::NotStarted(why) => Err(WiFiError::SystemError(why)),
        CommandOutcome::Exited { success, stdout, stderr } => if success {
            Ok(())
        } else {
            Err(WiFiError::ExecutionError(stderr))
        },
    }
}

/// The macOS command that reports the Wi-Fi state.
pub fn is_wifi_enabled_macos() -> (command: CommandLine)
    ensures
        command@ == (CommandLineView {
            program: "networksetup"@,
            args: seq!["-getairportpower"@, "en0"@],
        }),
{
    let command = CommandLine::with_one("networksetup", "-getairportpower").and("en0");
    assert(command@.args =~= seq!["-getairportpower"@, "en0"@]);
    command
}

/// The Windows command that reports the Wi-Fi state: it prints the status of
/// each Wi-Fi adapter that is up.
pub fn is_wifi_enabled_windows() -> (command: CommandLine)
    ensures
        command@ == (CommandLineView {
            program: "powershell"@,
            args: seq!["-Command"@, WIFI_STATUS_QUERY@],
        }),
{
    let command = CommandLine::with_one("powershell", "-Command").and(WIFI_STATUS_QUERY);
    assert(command@.args =~= seq!["-Command"@, WIFI_STATUS_QUERY@]);
    command
}

/// The PowerShell pipeline behind [`is_wifi_enabled_windows`].
pub const WIFI_STATUS_QUERY: &'static str =
    "Get-NetAdapter | Where-Object {$_.Name -like '*Wi-Fi*' -and $_.Status -eq 'Up'} | Select-Object -ExpandProperty Status";

/// The command that reports the Wi-Fi state on `platform`.
pub fn is_wifi_enabled(platform: Platform) -> (result: Result<CommandLine, WiFiError>)
    ensures
        match platform {
            Platform::MacOs => result matches Ok(command) && command@ == (CommandLineView {
                program: "networksetup"@,
                args: seq!["-getairportpower"@, "en0"@],
            }),
            Platform::Windows => result matches Ok(command) && command@ == (CommandLineView {
                program: "powershell"@,
                args: seq!["-Command"@, WIFI_STATUS_QUERY@],
            }),
            Platform::Unsupported => result == Err::<CommandLine, WiFiError>(
                WiFiError::UnsupportedPlatform,
            ),
        },
{
    match platform {
        Platform::MacOs => Ok(is_wifi_enabled_macos()),
        Platform::Windows => Ok(is_wifi_enabled_windows()),
        Platform::Unsupported => Err(WiFiError::UnsupportedPlatform),
    }
}

/// Whether the report `stdout` of the state command says that Wi-Fi is on.
/// On macOS the report holds the marker `On`; on Windows it is, once
/// trimmed, the adapter status `Up`.
pub open spec fn reports_enabled(platform: Platform, stdout: Seq<char>) -> bool {
    match platform {
        Platform::MacOs => contains(stdout, "On"@),
        Platform::Windows => trim(stdout) == "Up"@,
        Platform::Unsupported => false,
    }
}

/// What the end of the state command means: whether Wi-Fi is on, or why that
/// is not known.
pub open spec fn wifi_state(platform: Platform, outcome: CommandOutcome) -> Result<
    bool,
    WiFiError,
> {
    if platform == Platform::Unsupported {
        Err(WiFiError::UnsupportedPlatform)
    } else {
        match outcome {
            CommandOutcome::NotStarted(why) => Err(WiFiError::SystemError(why)),
            CommandOutcome::Exited { success, stdout, stderr } => if success {
                Ok(reports_enabled(platform, stdout@))
            } else {
                Err(WiFiError::ExecutionError(stderr))
            },
        }
    }
}

/// Judges how the command of [`is_wifi_enabled`] ended: whether Wi-Fi is on,
/// or why that is not known.
pub fn is_wifi_enabled_outcome(platform: Platform, outcome: CommandOutcome) -> (result: Result<
    bool,
    WiFiError,
>)
    ensures
        result == wifi_state(platform, outcome),
{
    if platform == Platform::Unsupported {
        return Err(WiFiError::UnsupportedPlatform);
    }
    match outcome {
        CommandOutcome::NotStarted(why) => Err(WiFiError::SystemError(why)),
        CommandOutcome::Exited { success, stdout, stderr } => {
            if !success {
                return Err(WiFiError::ExecutionError(stderr));
            }
            if platform == Platform::MacOs {
                Ok(contains_text(stdout.as_str(), "On"))
            } else {
                let chars = chars_of(stdout.as_str());
                let (from, to) = trim_bounds(&chars, 0, chars.len());
                assert(chars@.subrange(0, chars.len() as int) =~= stdout@);
                Ok(is_up(&chars, from, to))
            }
        },
    }
}

/// Whether `chars[from..to]` is the word `Up`.
fn is_up(chars: &Vec<char>, from: usize, to: usize) -> (b: bool)
    requires
        from <= to <= chars.len(),
    ensures
        b == (chars@.subrange(from as int, to as int) == "Up"@),
{
    proof {
        reveal_strlit("Up");
    }
    let ghost part = chars@.subrange(from as int, to as int);
    if to - from != 2 {
        assert(part.len() != "Up"@.len());
        return false;
    }
    assert(part[0] == chars@[from as int]);
    assert(part[1] == chars@[from + 1]);
    if chars[from] == 'U' && chars[from + 1] == 'p' {
        assert(part =~= "Up"@);
        true
    } else {
        false
    }
}

} // verus!

//! Combo mode: switch the network off, hide the application in front and
//! launch another one, as one ordered action.
//!
//! The combo decides; someone else acts. It names the platform call to make
//! next, is told how that call ended, and then names the next one or ends.
//! The first call that fails ends the combo, and what was done stays done.

use crate::app_control::AppControlError;
use crate::wifi::WiFiError;
use vstd::prelude::*;

verus! {

/// Why a combo failed.
#[derive(Debug, PartialEq, Eq)]
pub enum ComboError {
    /// The network step failed.
    WiFiError(WiFiError),
    /// The hide step or the launch step failed.
    AppControlError(AppControlError),
    /// An application is to be launched, but none is named.
    NoTargetApp,
}

impl ComboError {
    /// The text shown to a user for this error.
    pub open spec fn text(self) -> Seq<char> {
        match self {
            ComboError::WiFiError(cause) => "WiFi error: "@ + cause.text(),
            ComboError::AppControlError(cause) => "App control error: "@ + cause.text(),
            ComboError::NoTargetApp => "No target application specified"@,
        }
    }

    /// The text shown to a user for this error.
    pub fn message(&self) -> (message: String)
        ensures
            message@ == self.text(),
    {
        match self {
            ComboError::WiFiError(cause) => {
                String::from_str("WiFi error: ").concat(cause.message().as_str())
            },
            ComboError::AppControlError(cause) => {
                String::from_str("App control error: ").concat(cause.message().as_str())
            },
            ComboError::NoTargetApp => String::from_str("No target application specified"),
        }
    }
}

impl From<WiFiError> for ComboError {
    fn from(cause: WiFiError) -> (error: ComboError) {
        ComboError::WiFiError(cause)
    }
}

impl vstd::std_specs::convert::FromSpecImpl<WiFiError> for ComboError {
    open spec fn obeys_from_spec() -> bool {
        true
    }

    open spec fn from_spec(cause: WiFiError) -> ComboError {
        ComboError::WiFiError(cause)
    }
}

impl From<AppControlError> for ComboError {
    fn from(cause: AppControlError) -> (error: ComboError) {
        ComboError::AppControlError(cause)
    }
}

impl vstd::std_specs::convert::FromSpecImpl<AppControlError> for ComboError {
    open spec fn obeys_from_spec() -> bool {
        true
    }

    open spec fn from_spec(cause: AppControlError) -> ComboError {
        ComboError::AppControlError(cause)
    }
}

/// Which steps a combo takes, and which application it launches.
///
/// A combo that is to launch an application needs a name for it. That is
/// checked when the combo runs, not when the configuration is made.
#[derive(Debug, PartialEq, Eq)]
pub struct ComboConfig {
    pub disable_wifi: bool,
    pub hide_current_app: bool,
    pub launch_app: bool,
    pub target_app: String,
}

/// The content of a [`ComboConfig`].
pub struct ComboConfigView {
    pub disable_wifi: bool,
    pub hide_current_app: bool,
    pub launch_app: bool,
    pub target_app: Seq<char>,
}

impl View for ComboConfig {
    type V = ComboConfigView;

    open spec fn view(&self) -> ComboConfigView {
        ComboConfigView {
            disable_wifi: self.disable_wifi,
            hide_current_app: self.hide_current_app,
            launch_app: self.launch_app,
            target_app: self.target_app@,
        }
    }
}

impl ComboConfigView {
    /// The configuration that a fresh installation starts with: every step,
    /// and the calculator as the application to launch.
    pub open spec fn initial() -> ComboConfigView {
        ComboConfigView {
            disable_wifi: true,
            hide_current_app: true,
            launch_app: true,
            target_app: "Calculator"@,
        }
    }
}

impl Default for ComboConfig {
    fn default() -> (config: ComboConfig)
        ensures
            config@ == ComboConfigView::initial(),
    {
        ComboConfig {
            disable_wifi: true,
            hide_current_app: true,
            launch_app: true,
            target_app: String::from_str("Calculator"),
        }
    }
}

impl Clone for ComboConfig {
    fn clone(&self) -> (copy: ComboConfig)
        ensures
            copy@ == self@,
    {
        ComboConfig {
            disable_wifi: self.disable_wifi,
            hide_current_app: self.hide_current_app,
            launch_app: self.launch_app,
            target_app: self.target_app.clone(),
        }
    }
}

/// A call on the platform that a combo asks for.
#[derive(Debug, PartialEq, Eq)]
pub enum PlatformCall {
    /// Switch the network on (`true`) or off (`false`).
    ToggleWifi(bool),
    /// Hide the application in front.
    HideCurrentApp,
    /// Launch the application of this name.
    LaunchApplication(String),
}

/// A [`PlatformCall`] with the name as text.
pub enum Call {
    ToggleWifi(bool),
    HideCurrentApp,
    LaunchApplication(Seq<char>),
}

impl View for PlatformCall {
    type V = Call;

    open spec fn view(&self) -> Call {
        match self {
            PlatformCall::ToggleWifi(enable) => Call::ToggleWifi(*enable),
            PlatformCall::HideCurrentApp => Call::HideCurrentApp,
            PlatformCall::LaunchApplication(name) => Call::LaunchApplication(name@),
        }
    }
}

/// How a platform call ended.
#[derive(Debug, PartialEq, Eq)]
pub enum CallReport {
    /// The end of a [`PlatformCall::ToggleWifi`].
    Wifi(Result<(), WiFiError>),
    /// The end of a [`PlatformCall::HideCurrentApp`] or a
    /// [`PlatformCall::LaunchApplication`].
    App(Result<(), AppControlError>),
}

impl CallReport {
    /// The error that a failed call ends the combo with; `None` for a call
    /// that succeeded.
    pub open spec fn failure(self) -> Option<ComboError> {
        match self {
            CallReport::Wifi(Err(cause)) => Some(ComboError::WiFiError(cause)),
            CallReport::App(Err(cause)) => Some(ComboError::AppControlError(cause)),
            _ => None,
        }
    }
}

/// The step of an activation that is to be looked at next.
#[derive(Clone, Copy, Debug, PartialEq, Eq, Structural)]
pub enum ComboStage {
    DisableWifi,
    HideApp,
    LaunchApp,
    Complete,
}

/// What a combo wants next.
#[derive(Debug, PartialEq, Eq)]
pub enum ComboDecision {
    /// Make this call, then come back with its report and with `resume`.
    Perform { call: PlatformCall, resume: ComboStage },
    /// The combo is over, with this result.
    Finish(Result<(), ComboError>),
}

/// A [`ComboDecision`] with names and errors as they stand in contracts.
pub enum Decision {
    Perform { call: Call, resume: ComboStage },
    Finish(Result<(), ComboError>),
}

impl View for ComboDecision {
    type V = Decision;

    open spec fn view(&self) -> Decision {
        match self {
            ComboDecision::Perform { call, resume } => Decision::Perform {
                call: call@,
                resume: *resume,
            },
            ComboDecision::Finish(result) => Decision::Finish(*result),
        }
    }
}

/// What an activation under `config` wants when it stands at `stage`: the
/// call of the first step from there on that is switched on, or the end. A
/// launch step without a name for the application ends the combo in
/// [`ComboError::NoTargetApp`], with no call made for it.
pub open spec fn decision_at(config: ComboConfigView, stage: ComboStage) -> Decision {
    if stage == ComboStage::DisableWifi && config.disable_wifi {
        Decision::Perform { call: Call::ToggleWifi(false), resume: ComboStage::HideApp }
    } else if stage != ComboStage::LaunchApp && stage != ComboStage::Complete
        && config.hide_current_app {
        Decision::Perform { call: Call::HideCurrentApp, resume: ComboStage::LaunchApp }
    } else if stage != ComboStage::Complete && config.launch_app {
        if config.target_app.len() == 0 {
            Decision::Finish(Err(ComboError::NoTargetApp))
        } else {
            Decision::Perform {
                call: Call::LaunchApplication(config.target_app),
                resume: ComboStage::Complete,
            }
        }
    } else {
        Decision::Finish(Ok(()))
    }
}

/// What an activation wants after a call that ended in `report`: the end, if
/// the call failed; else what it wants at `stage`.
pub open spec fn decision_after(
    config: ComboConfigView,
    stage: ComboStage,
    report: CallReport,
) -> Decision {
    match report.failure() {
        Some(error) => Decision::Finish(Err(error)),
        None => decision_at(config, stage),
    }
}

/// What an activation under `config` wants when it stands at `stage`.
fn decide(config: &ComboConfig, stage: ComboStage) -> (decision: ComboDecision)
    ensures
        decision@ == decision_at(config@, stage),
{
    if stage == ComboStage::DisableWifi && config.disable_wifi {
        return ComboDecision::Perform {
            call: PlatformCall::ToggleWifi(false),
            resume: ComboStage::HideApp,
        };
    }
    if stage != ComboStage::LaunchApp && stage != ComboStage::Complete && config.hide_current_app {
        return ComboDecision::Perform {
            call: PlatformCall::HideCurrentApp,
            resume: ComboStage::LaunchApp,
        };
    }
    if stage != ComboStage::Complete && config.launch_app {
        if config.target_app.as_str().is_empty() {
            return ComboDecision::Finish(Err(ComboError::NoTargetApp));
        }
        return ComboDecision::Perform {
            call: PlatformCall::LaunchApplication(config.target_app.clone()),
            resume: ComboStage::Complete,
        };
    }
    ComboDecision::Finish(Ok(()))
}

/// Starts combo mode: says what to do first.
///
/// The steps come in a fixed order: switch the network off, hide the
/// application in front, launch the target application. Those that `config`
/// switches off are passed over.
pub fn activate_combo_mode(config: &ComboConfig) -> (decision: ComboDecision)
    ensures
        decision@ == decision_at(config@, ComboStage::DisableWifi),
{
    decide(config, ComboStage::DisableWifi)
}

/// Goes on with combo mode after a call: takes the report of the call that
/// was asked for and the stage that came with it, and says what to do next.
///
/// A failed call ends the combo with its error. Nothing is undone.
pub fn resume_combo_mode(config: &ComboConfig, stage: ComboStage, report: CallReport) -> (decision:
    ComboDecision)
    ensures
        decision@ == decision_after(config@, stage, report),
{
    match report {
        CallReport::Wifi(Err(cause)) => ComboDecision::Finish(Err(ComboError::WiFiError(cause))),
        CallReport::App(Err(cause)) => ComboDecision::Finish(
            Err(ComboError::AppControlError(cause)),
        ),
        _ => decide(config, stage),
    }
}

/// Leaves combo mode: asks for the one call that switches the network on
/// again. The application that was hidden stays hidden and the one that was
/// launched keeps running.
pub fn deactivate_combo_mode() -> (decision: ComboDecision)
    ensures
        decision@ == (Decision::Perform {
            call: Call::ToggleWifi(true),
            resume: ComboStage::Complete,
        }),
{
    ComboDecision::Perform { call: PlatformCall::ToggleWifi(true), resume: ComboStage::Complete }
}

/// Ends the leaving of combo mode: takes the report of the call that
/// [`deactivate_combo_mode`] asked for and gives the result.
pub fn deactivate_combo_mode_outcome(report: CallReport) -> (result: Result<(), ComboError>)
    ensures
        result == match report.failure() {
            Some(error) => Err::<(), ComboError>(error),
            None => Ok::<(), ComboError>(()),
        },
{
    match report {
        CallReport::Wifi(Err(cause)) => Err(ComboError::WiFiError(cause)),
        CallReport::App(Err(cause)) => Err(ComboError::AppControlError(cause)),
        _ => Ok(()),
    }
}

/// The calls that an activation under `config` makes when none of them
/// fails: one for each step that is switched on, in the fixed order. A launch
/// step without a name for the application has no call.
pub open spec fn scheduled_calls(config: ComboConfigView) -> Seq<Call> {
    let network = if config.disable_wifi {
        seq![Call::ToggleWifi(false)]
    } else {
        Seq::<Call>::empty()
    };
    let hide = if config.hide_current_app {
        seq![Call::HideCurrentApp]
    } else {
        Seq::<Call>::empty()
    };
    let launch = if config.launch_app && config.target_app.len() > 0 {
        seq![Call::LaunchApplication(config.target_app)]
    } else {
        Seq::<Call>::empty()
    };
    network + hide + launch
}

/// The result of an activation under `config` when none of its calls fails.
pub open spec fn closing_result(config: ComboConfigView) -> Result<(), ComboError> {
    if config.launch_app && config.target_app.len() == 0 {
        Err(ComboError::NoTargetApp)
    } else {
        Ok(())
    }
}

/// The place of the first failure among the first `n` of `reports`, or `n`
/// if none of them is a failure.
pub open spec fn first_failure(reports: Seq<CallReport>, n: int) -> int
    decreases n,
{
    if n <= 0 {
        0
    } else {
        let earlier = first_failure(reports, n - 1);
        if earlier < n - 1 || reports[n - 1].failure() is Some {
            earlier
        } else {
            n
        }
    }
}

/// A run of a combo: the calls that were made, in order, and the result it
/// ended with, if it has ended.
pub struct ComboRun {
    pub calls: Seq<Call>,
    pub result: Option<Result<(), ComboError>>,
}

/// The run that follows `decision` when each call that is asked for is made
/// and ends as the next of `reports` says. Where the reports run out, the run
/// stands at the call it last asked for.
pub open spec fn run_from(
    config: ComboConfigView,
    decision: Decision,
    reports: Seq<CallReport>,
) -> ComboRun
    decreases reports.len(),
{
    match decision {
        Decision::Finish(result) => ComboRun { calls: Seq::empty(), result: Some(result) },
        Decision::Perform { call, resume } => if reports.len() == 0 {
            ComboRun { calls: seq![call], result: None }
        } else {
            let rest = run_from(
                config,
                decision_after(config, resume, reports[0]),
                reports.drop_first(),
            );
            ComboRun { calls: seq![call] + rest.calls, result: rest.result }
        },
    }
}

/// An activation makes its scheduled calls in order and stops at the first
/// that fails.
///
/// Let the calls of an activation under `config` end as `reports` says. If
/// none of the scheduled calls fails, all of them are made and the result is
/// the closing result: success, or the missing name of the application to
/// launch. Otherwise the calls up to the first failing one are made and no
/// other, and the result is the error of that call.
pub proof fn lemma_activation_run(config: ComboConfigView, reports: Seq<CallReport>)
    requires
        reports.len() >= 3,
    ensures
        ({
            let scheduled = scheduled_calls(config);
            let failing = first_failure(reports, scheduled.len() as int);
            let run = run_from(config, decision_at(config, ComboStage::DisableWifi), reports);
            if failing < scheduled.len() {
                &&& run.calls == scheduled.take(failing + 1)
                &&& reports[failing].failure() matches Some(error)
                &&& run.result == Some(Err::<(), ComboError>(error))
            } else {
                &&& run.calls == scheduled
                &&& run.result == Some(closing_result(config))
            }
        }),
{
    reveal_with_fuel(run_from, 4);
    reveal_with_fuel(first_failure, 4);
    let scheduled = scheduled_calls(config);
    let failing = first_failure(reports, scheduled.len() as int);
    let run = run_from(config, decision_at(config, ComboStage::DisableWifi), reports);
    let second = reports.drop_first();
    let third = second.drop_first();
    assert(second[0] == reports[1]);
    assert(third[0] == reports[2]);
    if failing < scheduled.len() {
        assert(run.calls =~= scheduled.take(failing + 1));
    } else {
        assert(run.calls =~= scheduled);
    }
}

/// Leaving combo mode makes exactly one call, which switches the network on,
/// and ends with what that call ended with.
pub proof fn lemma_deactivation_run(report: CallReport)
    ensures
        ({
            let leave = Decision::Perform {
                call: Call::ToggleWifi(true),
                resume: ComboStage::Complete,
            };
            let result = match report.failure() {
                Some(error) => Err::<(), ComboError>(error),
                None => Ok::<(), ComboError>(()),
            };
            forall|config: ComboConfigView|
                #[trigger] run_from(config, leave, seq![report]) == (ComboRun {
                    calls: seq![Call::ToggleWifi(true)],
                    result: Some(result),
                })
        }),
{
    reveal_with_fuel(run_from, 3);
    let leave = Decision::Perform { call: Call::ToggleWifi(true), resume: ComboStage::Complete };
    assert forall|config: ComboConfigView|
        (#[trigger] run_from(config, leave, seq![report])).calls =~= seq![
            Call::ToggleWifi(true),
        ] by {
        assert(seq![report][0] == report);
    }
}

} // verus!

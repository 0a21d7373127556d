//! The hotkey binding manager: it owns the bindings that are live at the
//! hotkey subsystem of the operating system and replaces them as a whole when
//! the configuration changes.

use crate::hotkey::{
    planned_bindings, HotkeyAction, HotkeyBinding, HotkeyConfig, HotkeyConfigView, HotkeyError,
    HotkeySpec,
};
use global_hotkey::hotkey::{Code, HotKey, Modifiers as OsModifiers};
use global_hotkey::GlobalHotKeyManager;
use vstd::prelude::*;

verus! {

#[verifier::external_type_specification]
#[verifier::external_body]
pub struct ExGlobalHotKeyManager(global_hotkey::GlobalHotKeyManager);

#[verifier::external_type_specification]
#[verifier::external_body]
pub struct ExHotKey(global_hotkey::hotkey::HotKey);

#[verifier::external_type_specification]
#[verifier::external_body]
pub struct ExOsError(global_hotkey::Error);

/// `GlobalHotKeyManager::new` opens the hotkey subsystem of the operating
/// system. Whether it succeeds is up to the system: nothing is claimed.
pub assume_specification[ GlobalHotKeyManager::new ]() -> (opened: global_hotkey::Result<
    GlobalHotKeyManager,
>)
;

/// `GlobalHotKeyManager::register` asks the operating system to bind a
/// hotkey. The system may refuse: nothing is claimed of the answer.
pub assume_specification[ GlobalHotKeyManager::register ](
    manager: &GlobalHotKeyManager,
    hotkey: HotKey,
) -> (answer: global_hotkey::Result<()>)
;

/// `GlobalHotKeyManager::unregister` asks the operating system to release a
/// hotkey. The system may refuse: nothing is claimed of the answer.
pub assume_specification[ GlobalHotKeyManager::unregister ](
    manager: &GlobalHotKeyManager,
    hotkey: HotKey,
) -> (answer: global_hotkey::Result<()>)
;

/// `HotKey::new` on the modifiers and the letter key of `hotkey`, each turned
/// into its counterpart at the operating system. The value is only handed on
/// to the system: nothing is claimed of it.
#[verifier::external_body]
fn os_hotkey(hotkey: &HotkeySpec) -> HotKey {
    let mut mods = OsModifiers::empty();
    mods.set(OsModifiers::CONTROL, hotkey.modifiers.control);
    mods.set(OsModifiers::SHIFT, hotkey.modifiers.shift);
    mods.set(OsModifiers::ALT, hotkey.modifiers.alt);
    mods.set(OsModifiers::META, hotkey.modifiers.meta);
    let code = format!("Key{}", hotkey.key.letter()).parse::<Code>().unwrap_or(Code::Unidentified);
    HotKey::new(Some(mods), code)
}

/// The `Display` text of an error of the hotkey subsystem. Nothing is claimed
/// of the text.
#[verifier::external_body]
fn os_error_text(error: &global_hotkey::Error) -> String {
    error.to_string()
}

/// The hotkey subsystem of an operating system, as far as the manager needs
/// it: hotkeys can be bound and released, and either may be refused.
pub trait HotkeySystem {
    /// Asks the system to bind `hotkey`. `Err` holds the reason of a refusal.
    fn bind(&mut self, hotkey: &HotkeySpec) -> Result<(), String>;

    /// Asks the system to release `hotkey`. `Err` holds the reason of a
    /// refusal.
    fn release(&mut self, hotkey: &HotkeySpec) -> Result<(), String>;
}

/// The hotkey subsystem of the operating system that the program runs on.
pub struct OsHotkeys {
    manager: GlobalHotKeyManager,
}

/// What the system's answer to a request comes to: granted, or refused with
/// the text of the system's error as the reason.
fn granted_or_reason(answer: Result<(), global_hotkey::Error>) -> (outcome: Result<(), String>)
    ensures
        outcome is Ok <==> answer is Ok,
{
    match answer {
        Ok(_) => Ok(()),
        Err(error) => Err(os_error_text(&error)),
    }
}

impl OsHotkeys {
    /// What an attempt to open the hotkey subsystem comes to: the subsystem,
    /// or a system error with the text of the system's error.
    fn opened(attempt: Result<GlobalHotKeyManager, global_hotkey::Error>) -> (result: Result<
        OsHotkeys,
        HotkeyError,
    >)
        ensures
            result is Ok <==> attempt is Ok,
            result matches Err(error) ==> error is SystemError,
    {
        match attempt {
            Ok(manager) => Ok(OsHotkeys { manager }),
            Err(error) => Err(HotkeyError::SystemError(os_error_text(&error))),
        }
    }

    /// Opens the hotkey subsystem.
    pub fn new() -> (result: Result<OsHotkeys, HotkeyError>)
        ensures
            result matches Err(error) ==> error is SystemError,
    {
        OsHotkeys::opened(GlobalHotKeyManager::new())
    }
}

impl HotkeySystem for OsHotkeys {
    fn bind(&mut self, hotkey: &HotkeySpec) -> Result<(), String> {
        granted_or_reason(self.manager.register(os_hotkey(hotkey)))
    }

    fn release(&mut self, hotkey: &HotkeySpec) -> Result<(), String> {
        granted_or_reason(self.manager.unregister(os_hotkey(hotkey)))
    }
}

/// A request made of the hotkey subsystem.
pub enum OsRequest {
    Register(HotkeySpec),
    Unregister(HotkeySpec),
}

/// A request together with the answer it got: `Ok`, or the reason of the
/// refusal.
pub struct Exchange {
    pub request: OsRequest,
    pub answer: Result<(), Seq<char>>,
}

/// The state of a manager: its configuration, the bindings it tracks as live,
/// and every exchange with the hotkey subsystem that it has taken note of.
pub struct ManagerState {
    pub config: HotkeyConfigView,
    pub registered: Seq<HotkeyBinding>,
    pub exchanges: Seq<Exchange>,
}

/// The requests to register `bindings`, one after another, each granted.
pub open spec fn registrations(bindings: Seq<HotkeyBinding>) -> Seq<Exchange> {
    Seq::new(
        bindings.len(),
        |i: int| Exchange { request: OsRequest::Register(bindings[i].hotkey), answer: Ok(()) },
    )
}

/// The requests to unregister `bindings`, one after another, each granted.
pub open spec fn unregistrations(bindings: Seq<HotkeyBinding>) -> Seq<Exchange> {
    Seq::new(
        bindings.len(),
        |i: int| Exchange { request: OsRequest::Unregister(bindings[i].hotkey), answer: Ok(()) },
    )
}

/// What registering `plan` makes of a manager, whatever the system answers.
///
/// The bindings are asked for in order, and the first refusal ends the work.
/// Those granted before it are tracked from then on. The refused one is the
/// last that is asked for, and the reason of the refusal is the error. The
/// result is `Ok` if and only if every binding was granted.
pub open spec fn registers(
    before: ManagerState,
    plan: Seq<HotkeyBinding>,
    after: ManagerState,
    result: Result<(), HotkeyError>,
) -> bool {
    let done = after.registered.len() - before.registered.len();
    &&& after.config == before.config
    &&& 0 <= done <= plan.len()
    &&& after.registered == before.registered + plan.take(done)
    &&& if done == plan.len() {
        &&& result is Ok
        &&& after.exchanges == before.exchanges + registrations(plan)
    } else {
        &&& result matches Err(HotkeyError::RegistrationError(reason))
        &&& after.exchanges == (before.exchanges + registrations(plan.take(done))).push(
            Exchange { request: OsRequest::Register(plan[done].hotkey), answer: Err(reason@) },
        )
    }
}

/// What registering the configured hotkeys makes of a manager. If one of the
/// three strings does not parse, nothing is asked of the system and nothing
/// changes; otherwise see [`registers`].
pub open spec fn registers_all(
    before: ManagerState,
    after: ManagerState,
    result: Result<(), HotkeyError>,
) -> bool {
    match planned_bindings(before.config) {
        Err(diagnostic) => {
            &&& after == before
            &&& result matches Err(HotkeyError::ParseError(detail))
            &&& detail@ == diagnostic
        },
        Ok(plan) => registers(before, plan, after, result),
    }
}

/// What unregistering makes of a manager, whatever the system answers.
///
/// The tracked bindings are taken in order, oldest first, and the first
/// refusal ends the work. Those released before it are tracked no longer.
/// The refused one and those behind it still are, and the reason of the
/// refusal is the error. The result is `Ok` if and only if every binding was
/// released.
pub open spec fn unregisters_all(
    before: ManagerState,
    after: ManagerState,
    result: Result<(), HotkeyError>,
) -> bool {
    let done = before.registered.len() - after.registered.len();
    &&& after.config == before.config
    &&& 0 <= done <= before.registered.len()
    &&& after.registered == before.registered.skip(done)
    &&& if done == before.registered.len() {
        &&& result is Ok
        &&& after.exchanges == before.exchanges + unregistrations(before.registered)
    } else {
        &&& result matches Err(HotkeyError::RegistrationError(reason))
        &&& after.exchanges == (before.exchanges + unregistrations(
            before.registered.take(done),
        )).push(
            Exchange {
                request: OsRequest::Unregister(before.registered[done].hotkey),
                answer: Err(reason@),
            },
        )
    }
}

/// What replacing the configuration by `config` makes of a manager. Either
/// unregistering fails, and the stored configuration stays; or it succeeds,
/// `config` is stored, and its hotkeys are registered as far as that goes.
pub open spec fn reconfigures(
    before: ManagerState,
    config: HotkeyConfigView,
    after: ManagerState,
    result: Result<(), HotkeyError>,
) -> bool {
    ||| {
        &&& result is Err
        &&& unregisters_all(before, after, result)
    }
    ||| registers_all(
        ManagerState {
            config,
            registered: Seq::empty(),
            exchanges: before.exchanges + unregistrations(before.registered),
        },
        after,
        result,
    )
}

/// Owns the hotkeys that are live at a hotkey subsystem.
///
/// A manager starts with the default configuration and nothing registered.
/// [`register_all`](HotkeyManager::register_all) makes the configured hotkeys
/// live; [`set_config`](HotkeyManager::set_config) replaces them as a whole.
/// The tracked bindings change in one way only: by an answer of the system
/// that the manager takes note of.
pub struct HotkeyManager<S: HotkeySystem> {
    system: S,
    config: HotkeyConfig,
    registered_hotkeys: Vec<HotkeyBinding>,
    exchanges: Ghost<Seq<Exchange>>,
}

impl<S: HotkeySystem> View for HotkeyManager<S> {
    type V = ManagerState;

    closed spec fn view(&self) -> ManagerState {
        ManagerState {
            config: self.config@,
            registered: self.registered_hotkeys@,
            exchanges: self.exchanges@,
        }
    }
}

impl HotkeyManager<OsHotkeys> {
    /// A manager for the hotkey subsystem of the running operating system.
    /// It holds the default configuration, tracks no binding and has asked
    /// for nothing yet.
    pub fn new() -> (result: Result<HotkeyManager<OsHotkeys>, HotkeyError>)
        ensures
            match result {
                Ok(manager) => manager@ == (ManagerState {
                    config: HotkeyConfigView::initial(),
                    registered: Seq::empty(),
                    exchanges: Seq::empty(),
                }),
                Err(error) => error is SystemError,
            },
    {
        match OsHotkeys::new() {
            Ok(system) => Ok(HotkeyManager::with_system(system)),
            Err(error) => Err(error),
        }
    }
}

impl<S: HotkeySystem> HotkeyManager<S> {
    /// The hotkey subsystem that the manager talks to, as it stands.
    pub closed spec fn subsystem(&self) -> S {
        self.system
    }

    /// A manager for `system`. It holds the default configuration, tracks no
    /// binding and has asked for nothing yet.
    pub fn with_system(system: S) -> (manager: HotkeyManager<S>)
        ensures
            manager.subsystem() == system,
            manager@ == (ManagerState {
                config: HotkeyConfigView::initial(),
                registered: Seq::empty(),
                exchanges: Seq::empty(),
            }),
    {
        HotkeyManager {
            system,
            config: HotkeyConfig::default(),
            registered_hotkeys: Vec::new(),
            exchanges: Ghost(Seq::empty()),
        }
    }

    /// The hotkey subsystem that this manager talks to.
    pub fn system(&self) -> (system: &S)
        ensures
            *system == self.subsystem(),
    {
        &self.system
    }

    /// A copy of the current configuration.
    pub fn get_config(&self) -> (config: HotkeyConfig)
        ensures
            config@ == self@.config,
    {
        self.config.clone()
    }

    /// A copy of the bindings that are tracked as live, oldest first.
    pub fn registered(&self) -> (bindings: Vec<HotkeyBinding>)
        ensures
            bindings@ == self@.registered,
    {
        self.registered_hotkeys.clone()
    }

    /// The action of the first tracked binding for `hotkey`, if there is one.
    pub fn action_for(&self, hotkey: &HotkeySpec) -> (action: Option<HotkeyAction>)
        ensures
            match action {
                Some(found) => exists|i: int|
                    0 <= i < self@.registered.len() && (#[trigger] self@.registered[i])
                        == (HotkeyBinding { hotkey: *hotkey, action: found }) && forall|j: int|
                        0 <= j < i ==> (#[trigger] self@.registered[j]).hotkey != *hotkey,
                None => forall|i: int|
                    0 <= i < self@.registered.len() ==> (#[trigger] self@.registered[i]).hotkey
                        != *hotkey,
            },
    {
        let mut i: usize = 0;
        while i < self.registered_hotkeys.len()
            invariant
                i <= self.registered_hotkeys.len(),
                forall|j: int|
                    0 <= j < i ==> (#[trigger] self.registered_hotkeys@[j]).hotkey != *hotkey,
            decreases self.registered_hotkeys.len() - i,
        {
            let binding = self.registered_hotkeys[i];
            if binding.hotkey == *hotkey {
                assert(self@.registered[i as int] == (HotkeyBinding {
                    hotkey: *hotkey,
                    action: binding.action,
                }));
                return Some(binding.action);
            }
            i += 1;
        }
        None
    }

    /// Takes note of the answer that the system gave to the request to bind
    /// `binding`. A binding that was granted is tracked from now on, behind
    /// those tracked already. A refusal changes no binding, and its reason is
    /// the error, word for word.
    pub fn note_registration(
        &mut self,
        binding: HotkeyBinding,
        answer: Result<(), String>,
    ) -> (result: Result<(), HotkeyError>)
        ensures
            final(self)@.config == old(self)@.config,
            final(self).subsystem() == old(self).subsystem(),
            match answer {
                Ok(_) => {
                    &&& result is Ok
                    &&& final(self)@.registered == old(self)@.registered.push(binding)
                    &&& final(self)@.exchanges == old(self)@.exchanges.push(
                        Exchange { request: OsRequest::Register(binding.hotkey), answer: Ok(()) },
                    )
                },
                Err(reason) => {
                    &&& result == Err::<(), HotkeyError>(HotkeyError::RegistrationError(reason))
                    &&& final(self)@.registered == old(self)@.registered
                    &&& final(self)@.exchanges == old(self)@.exchanges.push(
                        Exchange {
                            request: OsRequest::Register(binding.hotkey),
                            answer: Err(reason@),
                        },
                    )
                },
            },
    {
        let ghost request = OsRequest::Register(binding.hotkey);
        match answer {
            Ok(_) => {
                self.exchanges = Ghost(self.exchanges@.push(Exchange { request, answer: Ok(()) }));
                self.registered_hotkeys.push(binding);
                Ok(())
            },
            Err(reason) => {
                self.exchanges = Ghost(
                    self.exchanges@.push(Exchange { request, answer: Err(reason@) }),
                );
                Err(HotkeyError::RegistrationError(reason))
            },
        }
    }

    /// Takes note of the answer that the system gave to the request to
    /// release the oldest tracked binding. A binding that was released is
    /// tracked no longer. A refusal changes no binding, and its reason is the
    /// error, word for word.
    pub fn note_release(&mut self, answer: Result<(), String>) -> (result: Result<(), HotkeyError>)
        requires
            old(self)@.registered.len() > 0,
        ensures
            final(self)@.config == old(self)@.config,
            final(self).subsystem() == old(self).subsystem(),
            match answer {
                Ok(_) => {
                    &&& result is Ok
                    &&& final(self)@.registered == old(self)@.registered.skip(1)
                    &&& final(self)@.exchanges == old(self)@.exchanges.push(
                        Exchange {
                            request: OsRequest::Unregister(old(self)@.registered[0].hotkey),
                            answer: Ok(()),
                        },
                    )
                },
                Err(reason) => {
                    &&& result == Err::<(), HotkeyError>(HotkeyError::RegistrationError(reason))
                    &&& final(self)@.registered == old(self)@.registered
                    &&& final(self)@.exchanges == old(self)@.exchanges.push(
                        Exchange {
                            request: OsRequest::Unregister(old(self)@.registered[0].hotkey),
                            answer: Err(reason@),
                        },
                    )
                },
            },
    {
        let ghost request = OsRequest::Unregister(self.registered_hotkeys@[0].hotkey);
        match answer {
            Ok(_) => {
                self.exchanges = Ghost(self.exchanges@.push(Exchange { request, answer: Ok(()) }));
                self.registered_hotkeys.remove(0);
                assert(self.registered_hotkeys@ =~= old(self)@.registered.skip(1));
                Ok(())
            },
            Err(reason) => {
                self.exchanges = Ghost(
                    self.exchanges@.push(Exchange { request, answer: Err(reason@) }),
                );
                Err(HotkeyError::RegistrationError(reason))
            },
        }
    }

    /// Asks the system to bind `binding` and takes note of its answer.
    fn register_one(&mut self, binding: HotkeyBinding) -> (result: Result<(), HotkeyError>)
        ensures
            final(self)@.config == old(self)@.config,
            match result {
                Ok(_) => {
                    &&& final(self)@.registered == old(self)@.registered.push(binding)
                    &&& final(self)@.exchanges == old(self)@.exchanges.push(
                        Exchange { request: OsRequest::Register(binding.hotkey), answer: Ok(()) },
                    )
                },
                Err(error) => {
                    &&& final(self)@.registered == old(self)@.registered
                    &&& error matches HotkeyError::RegistrationError(reason)
                    &&& final(self)@.exchanges == old(self)@.exchanges.push(
                        Exchange {
                            request: OsRequest::Register(binding.hotkey),
                            answer: Err(reason@),
                        },
                    )
                },
            },
    {
        let answer = self.system.bind(&binding.hotkey);
        self.note_registration(binding, answer)
    }

    /// Asks the system to release the oldest tracked binding and takes note
    /// of its answer.
    fn unregister_first(&mut self) -> (result: Result<(), HotkeyError>)
        requires
            old(self)@.registered.len() > 0,
        ensures
            final(self)@.config == old(self)@.config,
            match result {
                Ok(_) => {
                    &&& final(self)@.registered == old(self)@.registered.skip(1)
                    &&& final(self)@.exchanges == old(self)@.exchanges.push(
                        Exchange {
                            request: OsRequest::Unregister(old(self)@.registered[0].hotkey),
                            answer: Ok(()),
                        },
                    )
                },
                Err(error) => {
                    &&& final(self)@.registered == old(self)@.registered
                    &&& error matches HotkeyError::RegistrationError(reason)
                    &&& final(self)@.exchanges == old(self)@.exchanges.push(
                        Exchange {
                            request: OsRequest::Unregister(old(self)@.registered[0].hotkey),
                            answer: Err(reason@),
                        },
                    )
                },
            },
    {
        let binding = self.registered_hotkeys[0];
        let answer = self.system.release(&binding.hotkey);
        self.note_release(answer)
    }

    /// Parses the three configured hotkey strings and registers them with the
    /// system, in the order network toggle, app hide, combo.
    ///
    /// A string that does not parse ends the work before anything is
    /// registered. A hotkey that the system refuses ends it at once: the
    /// hotkeys registered before it stay registered and tracked, and those
    /// behind it are not asked for.
    pub fn register_all(&mut self) -> (result: Result<(), HotkeyError>)
        ensures
            registers_all(old(self)@, final(self)@, result),
    {
        let plan = match self.config.bindings() {
            Ok(plan) => plan,
            Err(error) => {
                return Err(error);
            },
        };
        let mut i: usize = 0;
        while i < plan.len()
            invariant
                i <= plan.len(),
                planned_bindings(old(self)@.config) == Ok::<Seq<HotkeyBinding>, Seq<char>>(plan@),
                self@.config == old(self)@.config,
                self@.registered == old(self)@.registered + plan@.take(i as int),
                self@.exchanges == old(self)@.exchanges + registrations(plan@.take(i as int)),
            decreases plan.len() - i,
        {
            match self.register_one(plan[i]) {
                Ok(_) => {
                    assert(self@.registered =~= old(self)@.registered + plan@.take(i + 1));
                    assert(self@.exchanges =~= old(self)@.exchanges + registrations(
                        plan@.take(i + 1),
                    ));
                },
                Err(error) => {
                    return Err(error);
                },
            }
            i += 1;
        }
        assert(plan@.take(i as int) =~= plan@);
        Ok(())
    }

    /// Unregisters the tracked hotkeys, oldest first.
    ///
    /// A hotkey that the system refuses to release ends the work at once: it
    /// and those behind it stay tracked, those before it are gone.
    pub fn unregister_all(&mut self) -> (result: Result<(), HotkeyError>)
        ensures
            unregisters_all(old(self)@, final(self)@, result),
    {
        let ghost total = self.registered_hotkeys@.len() as int;
        while self.registered_hotkeys.len() > 0
            invariant
                total == old(self)@.registered.len(),
                self@.config == old(self)@.config,
                self@.registered.len() <= total,
                self@.registered == old(self)@.registered.skip(total - self@.registered.len()),
                self@.exchanges == old(self)@.exchanges + unregistrations(
                    old(self)@.registered.take(total - self@.registered.len()),
                ),
            decreases self.registered_hotkeys.len(),
        {
            let ghost done = total - self@.registered.len();
            assert(self@.registered[0] == old(self)@.registered[done]);
            match self.unregister_first() {
                Ok(_) => {
                    assert(self@.registered =~= old(self)@.registered.skip(done + 1));
                    assert(self@.exchanges =~= old(self)@.exchanges + unregistrations(
                        old(self)@.registered.take(done + 1),
                    ));
                },
                Err(error) => {
                    return Err(error);
                },
            }
        }
        assert(old(self)@.registered.take(total) =~= old(self)@.registered);
        Ok(())
    }

    /// Replaces the configuration: unregisters every tracked hotkey, stores
    /// `config`, then registers the hotkeys it names.
    ///
    /// If unregistering fails, the stored configuration is kept. If what
    /// follows fails, `config` is stored all the same, and the manager is left
    /// as the failing step left it.
    pub fn set_config(&mut self, config: HotkeyConfig) -> (result: Result<(), HotkeyError>)
        ensures
            reconfigures(old(self)@, config@, final(self)@, result),
    {
        match self.unregister_all() {
            Ok(_) => {},
            Err(error) => {
                return Err(error);
            },
        }
        let ghost released = old(self)@.registered;
        assert(self@.registered =~= Seq::empty());
        self.config = config;
        assert(self@ == (ManagerState {
            config: config@,
            registered: Seq::empty(),
            exchanges: old(self)@.exchanges + unregistrations(released),
        }));
        self.register_all()
    }
}

/// Replacing a configuration by an equal one changes no binding.
///
/// Take a manager that tracks nothing and registers its configured hotkeys,
/// all of them granted. If `set_config` is then given an equal configuration,
/// and succeeds, the manager tracks the same bindings as before, under the
/// same configuration: each was released once and bound once more, in order.
pub proof fn lemma_equal_config_round_trip(
    fresh: ManagerState,
    live: ManagerState,
    again: ManagerState,
    first: Result<(), HotkeyError>,
    second: Result<(), HotkeyError>,
)
    requires
        fresh.registered.len() == 0,
        registers_all(fresh, live, first),
        first is Ok,
        reconfigures(live, live.config, again, second),
        second is Ok,
    ensures
        again.registered == live.registered,
        again.config == live.config,
        again.exchanges == live.exchanges + unregistrations(live.registered) + registrations(
            live.registered,
        ),
{
    let plan = planned_bindings(fresh.config)->Ok_0;
    assert(plan.take(plan.len() as int) =~= plan);
    assert(live.registered =~= plan);
    assert(again.registered =~= plan);
}

} // verus!

//! Hotkey specifications: the textual form `Ctrl+Shift+W`, its parsed value,
//! and the parser between the two.

use crate::text::{
    ascii_upper, char_ascii_upper, chars_of, delimited, is_ascii_letter, lowered_equals,
    split_bounds, split_on, to_ascii_lower, trim, trim_bounds,
};
use vstd::prelude::*;

verus! {

/// A modifier key of a hotkey.
#[derive(Clone, Copy, Debug, PartialEq, Eq, Structural)]
pub enum Modifier {
    Control,
    Shift,
    Alt,
    Meta,
}

/// A set of modifier keys.
#[derive(Clone, Copy, Debug, PartialEq, Eq, Structural)]
pub struct Modifiers {
    pub control: bool,
    pub shift: bool,
    pub alt: bool,
    pub meta: bool,
}

impl View for Modifiers {
    type V = Set<Modifier>;

    open spec fn view(&self) -> Set<Modifier> {
        Set::new(|m: Modifier| self.has(m))
    }
}

impl Modifiers {
    /// Whether `m` is in the set.
    pub open spec fn has(self, m: Modifier) -> bool {
        match m {
            Modifier::Control => self.control,
            Modifier::Shift => self.shift,
            Modifier::Alt => self.alt,
            Modifier::Meta => self.meta,
        }
    }

    /// The set with no modifier.
    pub open spec fn none() -> Modifiers {
        Modifiers { control: false, shift: false, alt: false, meta: false }
    }

    /// The set with `m` added; adding a member again changes nothing.
    pub open spec fn plus(self, m: Modifier) -> Modifiers {
        Modifiers {
            control: self.control || m == Modifier::Control,
            shift: self.shift || m == Modifier::Shift,
            alt: self.alt || m == Modifier::Alt,
            meta: self.meta || m == Modifier::Meta,
        }
    }

    /// The empty set.
    pub fn empty() -> (set: Modifiers)
        ensures
            set == Modifiers::none(),
            set@ == Set::<Modifier>::empty(),
    {
        let set = Modifiers { control: false, shift: false, alt: false, meta: false };
        assert(set@ =~= Set::<Modifier>::empty());
        set
    }

    /// This set with `m` added.
    pub fn with(self, m: Modifier) -> (set: Modifiers)
        ensures
            set == self.plus(m),
            set@ == self@.insert(m),
    {
        let set = match m {
            Modifier::Control => Modifiers { control: true, ..self },
            Modifier::Shift => Modifiers { shift: true, ..self },
            Modifier::Alt => Modifiers { alt: true, ..self },
            Modifier::Meta => Modifiers { meta: true, ..self },
        };
        assert(set@ =~= self@.insert(m));
        set
    }

    /// Whether `m` is in the set.
    pub fn contains(&self, m: Modifier) -> (b: bool)
        ensures
            b == self@.contains(m),
    {
        match m {
            Modifier::Control => self.control,
            Modifier::Shift => self.shift,
            Modifier::Alt => self.alt,
            Modifier::Meta => self.meta,
        }
    }
}

/// The base key of a hotkey: one of the letters `A` to `Z`.
#[derive(Clone, Copy, Debug, PartialEq, Eq, Structural)]
pub struct Key {
    letter: char,
}

impl View for Key {
    type V = char;

    /// The key's letter, a capital.
    closed spec fn view(&self) -> char {
        self.letter
    }
}

impl Key {
    #[verifier::type_invariant]
    spec fn is_capital(self) -> bool {
        'A' <= self.letter && self.letter <= 'Z'
    }

    /// The key whose letter is `letter`.
    pub closed spec fn lettered(letter: char) -> Key {
        Key { letter }
    }

    /// A key is known by its letter.
    pub broadcast proof fn lemma_lettered(letter: char)
        ensures
            (#[trigger] Key::lettered(letter))@ == letter,
    {
    }

    /// The key for the letter `c`, taken in either case; `None` for any other character.
    pub fn from_char(c: char) -> (key: Option<Key>)
        ensures
            is_ascii_letter(c) ==> key == Some(Key::lettered(ascii_upper(c))),
            !is_ascii_letter(c) ==> key is None,
    {
        if ('A' <= c && c <= 'Z') || ('a' <= c && c <= 'z') {
            Some(Key { letter: char_ascii_upper(c) })
        } else {
            None
        }
    }

    /// The key's letter, a capital.
    pub fn letter(&self) -> (c: char)
        ensures
            c == self@,
            'A' <= c && c <= 'Z',
    {
        proof {
            use_type_invariant(self);
        }
        self.letter
    }
}

/// A parsed hotkey: a set of modifiers and exactly one base key.
#[derive(Clone, Copy, Debug, PartialEq, Eq, Structural)]
pub struct HotkeySpec {
    pub modifiers: Modifiers,
    pub key: Key,
}

/// What can go wrong with a hotkey.
#[derive(Debug, PartialEq, Eq)]
pub enum HotkeyError {
    /// The operating system refused to bind or unbind a hotkey.
    RegistrationError(String),
    /// A hotkey string is not a valid specification.
    ParseError(String),
    /// The hotkey subsystem could not be reached.
    SystemError(String),
}

impl HotkeyError {
    /// The text shown to a user for this error.
    pub open spec fn text(self) -> Seq<char> {
        match self {
            HotkeyError::RegistrationError(detail) => "Failed to register hotkey: "@ + detail@,
            HotkeyError::ParseError(detail) => "Failed to parse hotkey string: "@ + detail@,
            HotkeyError::SystemError(detail) => "System error: "@ + detail@,
        }
    }

    /// The text shown to a user for this error.
    pub fn message(&self) -> (message: String)
        ensures
            message@ == self.text(),
    {
        match self {
            HotkeyError::RegistrationError(detail) => {
                String::from_str("Failed to register hotkey: ").concat(detail.as_str())
            },
            HotkeyError::ParseError(detail) => {
                String::from_str("Failed to parse hotkey string: ").concat(detail.as_str())
            },
            HotkeyError::SystemError(detail) => {
                String::from_str("System error: ").concat(detail.as_str())
            },
        }
    }
}

/// Why a hotkey string is not a valid specification.
pub enum ParseFault {
    /// The text is empty, or it has more than four tokens.
    Malformed,
    /// A second token is neither a modifier nor the first base key.
    MultipleKeys,
    /// Every token is a modifier.
    NoKey,
    /// The token is neither a modifier nor a single letter.
    UnsupportedKey(Seq<char>),
}

impl ParseFault {
    /// The diagnostic for this fault in the hotkey string `input`.
    pub open spec fn detail(self, input: Seq<char>) -> Seq<char> {
        match self {
            ParseFault::Malformed => "Invalid hotkey format: "@ + input,
            ParseFault::MultipleKeys => "Multiple keys specified in hotkey: "@ + input,
            ParseFault::NoKey => "No key specified in hotkey: "@ + input,
            ParseFault::UnsupportedKey(token) => "Unsupported key: "@ + token,
        }
    }
}

/// The modifier that `token` names, in any mix of upper and lower case.
pub open spec fn modifier_named(token: Seq<char>) -> Option<Modifier> {
    let word = to_ascii_lower(token);
    if word == "ctrl"@ || word == "control"@ {
        Some(Modifier::Control)
    } else if word == "shift"@ {
        Some(Modifier::Shift)
    } else if word == "alt"@ {
        Some(Modifier::Alt)
    } else if word == "super"@ || word == "meta"@ || word == "cmd"@ || word == "command"@ {
        Some(Modifier::Meta)
    } else {
        None
    }
}

/// The base key that `token` names: a single letter, in either case.
pub open spec fn key_named(token: Seq<char>) -> Result<Key, ParseFault> {
    if token.len() == 1 && is_ascii_letter(token[0]) {
        Ok(Key::lettered(ascii_upper(token[0])))
    } else {
        Err(ParseFault::UnsupportedKey(token))
    }
}

/// What has been read of a hotkey string: the modifiers so far, and the base
/// key if one was met.
pub struct Reading {
    pub modifiers: Modifiers,
    pub key: Option<Key>,
}

/// The reading after one more token, which is first trimmed. A modifier joins
/// the set; anything else must be the one base key.
pub open spec fn read_token(so_far: Reading, token: Seq<char>) -> Result<Reading, ParseFault> {
    let word = trim(token);
    match modifier_named(word) {
        Some(m) => Ok(Reading { modifiers: so_far.modifiers.plus(m), key: so_far.key }),
        None => if so_far.key is Some {
            Err(ParseFault::MultipleKeys)
        } else {
            match key_named(word) {
                Ok(key) => Ok(Reading { modifiers: so_far.modifiers, key: Some(key) }),
                Err(fault) => Err(fault),
            }
        },
    }
}

/// The reading after all of `tokens`, taken from left to right; the first
/// fault ends it.
pub open spec fn read_tokens(tokens: Seq<Seq<char>>) -> Result<Reading, ParseFault>
    decreases tokens.len(),
{
    if tokens.len() == 0 {
        Ok(Reading { modifiers: Modifiers::none(), key: None })
    } else {
        match read_tokens(tokens.drop_last()) {
            Ok(so_far) => read_token(so_far, tokens.last()),
            Err(fault) => Err(fault),
        }
    }
}

/// The hotkey that `text` specifies: one to four tokens separated by `+`, of
/// which exactly one is a base key and the others are modifiers.
pub open spec fn parsed_hotkey(text: Seq<char>) -> Result<HotkeySpec, ParseFault> {
    let tokens = split_on(text, '+');
    if text.len() == 0 || tokens.len() > 4 {
        Err(ParseFault::Malformed)
    } else {
        match read_tokens(tokens) {
            Err(fault) => Err(fault),
            Ok(reading) => match reading.key {
                None => Err(ParseFault::NoKey),
                Some(key) => Ok(HotkeySpec { modifiers: reading.modifiers, key }),
            },
        }
    }
}

/// Whether `result` reports `outcome`, with the diagnostic written for `input`.
pub open spec fn reports<T>(
    result: Result<T, HotkeyError>,
    outcome: Result<T, ParseFault>,
    input: Seq<char>,
) -> bool {
    match outcome {
        Ok(value) => result == Ok::<T, HotkeyError>(value),
        Err(fault) => result matches Err(HotkeyError::ParseError(detail)) && detail@
            == fault.detail(input),
    }
}

/// Once a prefix of the tokens has met a fault, the whole reading ends in it.
pub proof fn lemma_fault_ends_reading(tokens: Seq<Seq<char>>, n: int)
    requires
        0 <= n <= tokens.len(),
        read_tokens(tokens.take(n)) is Err,
    ensures
        read_tokens(tokens) == read_tokens(tokens.take(n)),
    decreases tokens.len() - n,
{
    if n == tokens.len() {
        assert(tokens.take(n) =~= tokens);
    } else {
        assert(tokens.drop_last().take(n) =~= tokens.take(n));
        lemma_fault_ends_reading(tokens.drop_last(), n);
    }
}

/// The parse error whose diagnostic is `prefix` followed by `subject`.
fn parse_failure(prefix: &str, subject: &str) -> (error: HotkeyError)
    ensures
        error matches HotkeyError::ParseError(detail) && detail@ == prefix@ + subject@,
{
    HotkeyError::ParseError(String::from_str(prefix).concat(subject))
}

/// The modifier that `chars[from..to]` names, if any.
fn modifier_at(chars: &Vec<char>, from: usize, to: usize) -> (m: Option<Modifier>)
    requires
        from <= to <= chars.len(),
    ensures
        m == modifier_named(chars@.subrange(from as int, to as int)),
{
    if lowered_equals(chars, from, to, "ctrl") || lowered_equals(chars, from, to, "control") {
        Some(Modifier::Control)
    } else if lowered_equals(chars, from, to, "shift") {
        Some(Modifier::Shift)
    } else if lowered_equals(chars, from, to, "alt") {
        Some(Modifier::Alt)
    } else if lowered_equals(chars, from, to, "super") || lowered_equals(chars, from, to, "meta")
        || lowered_equals(chars, from, to, "cmd") || lowered_equals(chars, from, to, "command") {
        Some(Modifier::Meta)
    } else {
        None
    }
}

/// Parses a base key such as `W`: a single letter, in either case.
pub fn parse_key(key_str: &str) -> (result: Result<Key, HotkeyError>)
    ensures
        reports(result, key_named(key_str@), key_str@),
{
    if key_str.unicode_len() != 1 {
        return Err(parse_failure("Unsupported key: ", key_str));
    }
    match Key::from_char(key_str.get_char(0)) {
        Some(key) => Ok(key),
        None => Err(parse_failure("Unsupported key: ", key_str)),
    }
}

/// Parses a hotkey string such as `Ctrl+Shift+W`.
///
/// The string, which may not be empty, is split at each `+` into at most four
/// tokens. Each token is trimmed and matched, whatever its case, against the
/// modifier names `ctrl`, `control`, `shift`, `alt`, `super`, `meta`, `cmd` and
/// `command`; the one token that is no modifier must be a single letter, the
/// base key.
pub fn parse_hotkey_string(hotkey_str: &str) -> (result: Result<HotkeySpec, HotkeyError>)
    ensures
        reports(result, parsed_hotkey(hotkey_str@), hotkey_str@),
{
    let chars = chars_of(hotkey_str);
    let bounds = split_bounds(&chars, '+');
    let ghost tokens = split_on(hotkey_str@, '+');
    if chars.len() == 0 || bounds.len() > 4 {
        return Err(parse_failure("Invalid hotkey format: ", hotkey_str));
    }
    let mut modifiers = Modifiers::empty();
    let mut key: Option<Key> = None;
    let mut i: usize = 0;
    while i < bounds.len()
        invariant
            chars@ == hotkey_str@,
            chars.len() > 0,
            tokens == split_on(hotkey_str@, '+'),
            tokens == delimited(chars@, bounds@),
            forall|k: int|
                0 <= k < bounds.len() ==> (#[trigger] bounds[k]).0 <= bounds[k].1 <= chars.len(),
            i <= bounds.len() <= 4,
            read_tokens(tokens.take(i as int)) == Ok::<Reading, ParseFault>(
                Reading { modifiers, key },
            ),
        decreases bounds.len() - i,
    {
        let (from, to) = bounds[i];
        let (a, b) = trim_bounds(&chars, from, to);
        proof {
            assert(tokens.take(i + 1).drop_last() =~= tokens.take(i as int));
            assert(tokens.take(i + 1).last() == tokens[i as int]);
            assert(chars@.subrange(a as int, b as int) == trim(tokens[i as int]));
        }
        match modifier_at(&chars, a, b) {
            Some(m) => {
                modifiers = modifiers.with(m);
            },
            None => {
                if key.is_some() {
                    proof {
                        lemma_fault_ends_reading(tokens, i + 1);
                    }
                    return Err(parse_failure("Multiple keys specified in hotkey: ", hotkey_str));
                }
                match parse_key(hotkey_str.substring_char(a, b)) {
                    Ok(parsed) => {
                        key = Some(parsed);
                    },
                    Err(error) => {
                        proof {
                            lemma_fault_ends_reading(tokens, i + 1);
                        }
                        return Err(error);
                    },
                }
            },
        }
        i += 1;
    }
    assert(tokens.take(i as int) =~= tokens);
    match key {
        None => Err(parse_failure("No key specified in hotkey: ", hotkey_str)),
        Some(key) => Ok(HotkeySpec { modifiers, key }),
    }
}

/// The three hotkey strings as a user configured them.
#[derive(Debug, PartialEq, Eq)]
pub struct HotkeyConfig {
    pub wifi_toggle: String,
    pub app_hide: String,
    pub combo_mode: String,
}

/// The text of a [`HotkeyConfig`].
pub struct HotkeyConfigView {
    pub wifi_toggle: Seq<char>,
    pub app_hide: Seq<char>,
    pub combo_mode: Seq<char>,
}

impl View for HotkeyConfig {
    type V = HotkeyConfigView;

    open spec fn view(&self) -> HotkeyConfigView {
        HotkeyConfigView {
            wifi_toggle: self.wifi_toggle@,
            app_hide: self.app_hide@,
            combo_mode: self.combo_mode@,
        }
    }
}

impl HotkeyConfigView {
    /// The configuration that a fresh installation starts with.
    pub open spec fn initial() -> HotkeyConfigView {
        HotkeyConfigView {
            wifi_toggle: "Ctrl+Shift+W"@,
            app_hide: "Ctrl+Shift+H"@,
            combo_mode: "Ctrl+Shift+C"@,
        }
    }
}

impl Default for HotkeyConfig {
    fn default() -> (config: HotkeyConfig)
        ensures
            config@ == HotkeyConfigView::initial(),
    {
        HotkeyConfig {
            wifi_toggle: String::from_str("Ctrl+Shift+W"),
            app_hide: String::from_str("Ctrl+Shift+H"),
            combo_mode: String::from_str("Ctrl+Shift+C"),
        }
    }
}

impl Clone for HotkeyConfig {
    fn clone(&self) -> (copy: HotkeyConfig)
        ensures
            copy@ == self@,
    {
        HotkeyConfig {
            wifi_toggle: self.wifi_toggle.clone(),
            app_hide: self.app_hide.clone(),
            combo_mode: self.combo_mode.clone(),
        }
    }
}

/// What a hotkey sets off when it fires.
#[derive(Clone, Copy, Debug, PartialEq, Eq, Structural)]
pub enum HotkeyAction {
    ToggleNetwork,
    HideApp,
    ActivateCombo,
}

/// A hotkey together with the action it sets off.
#[derive(Clone, Copy, Debug, PartialEq, Eq, Structural)]
pub struct HotkeyBinding {
    pub hotkey: HotkeySpec,
    pub action: HotkeyAction,
}

/// The bindings that `config` asks for, in the order network toggle, app
/// hide, combo; or the diagnostic of the first string that does not parse.
pub open spec fn planned_bindings(config: HotkeyConfigView) -> Result<
    Seq<HotkeyBinding>,
    Seq<char>,
> {
    match parsed_hotkey(config.wifi_toggle) {
        Err(fault) => Err(fault.detail(config.wifi_toggle)),
        Ok(toggle) => match parsed_hotkey(config.app_hide) {
            Err(fault) => Err(fault.detail(config.app_hide)),
            Ok(hide) => match parsed_hotkey(config.combo_mode) {
                Err(fault) => Err(fault.detail(config.combo_mode)),
                Ok(combo) => Ok(
                    seq![
                        HotkeyBinding { hotkey: toggle, action: HotkeyAction::ToggleNetwork },
                        HotkeyBinding { hotkey: hide, action: HotkeyAction::HideApp },
                        HotkeyBinding { hotkey: combo, action: HotkeyAction::ActivateCombo },
                    ],
                ),
            },
        },
    }
}

impl HotkeyConfig {
    /// Parses the three hotkey strings, in the order network toggle, app hide,
    /// combo, and pairs each with its action. The first string that does not
    /// parse ends the work with its error.
    pub fn bindings(&self) -> (result: Result<Vec<HotkeyBinding>, HotkeyError>)
        ensures
            match planned_bindings(self@) {
                Ok(plan) => result matches Ok(bindings) && bindings@ == plan,
                Err(diagnostic) => result matches Err(HotkeyError::ParseError(detail)) && detail@
                    == diagnostic,
            },
    {
        let toggle = match parse_hotkey_string(self.wifi_toggle.as_str()) {
            Ok(hotkey) => hotkey,
            Err(error) => return Err(error),
        };
        let hide = match parse_hotkey_string(self.app_hide.as_str()) {
            Ok(hotkey) => hotkey,
            Err(error) => return Err(error),
        };
        let combo = match parse_hotkey_string(self.combo_mode.as_str()) {
            Ok(hotkey) => hotkey,
            Err(error) => return Err(error),
        };
        let mut bindings: Vec<HotkeyBinding> = Vec::new();
        bindings.push(HotkeyBinding { hotkey: toggle, action: HotkeyAction::ToggleNetwork });
        bindings.push(HotkeyBinding { hotkey: hide, action: HotkeyAction::HideApp });
        bindings.push(HotkeyBinding { hotkey: combo, action: HotkeyAction::ActivateCombo });
        assert(bindings@ =~= planned_bindings(self@)->Ok_0);
        Ok(bindings)
    }
}

} // verus!

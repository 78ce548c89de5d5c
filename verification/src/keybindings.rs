//! The configurable key bindings: a modifier and a character each, read
//! from texts such as `Ctrl e`.

use crate::text::{chars_of, lemma_words_hold_no_white_space, split_whitespace, views_of, words};
use crate::vars::VarMap;
use std::str::FromStr;
use vstd::prelude::*;
use vstd::string::StringExecFns;

verus! {

/// A modifier key.
#[derive(PartialEq, Eq, Structural, Clone, Copy, Debug)]
pub enum KeyModifier {
    Ctrl,
    Alt,
    Shift,
    Super,
}

/// A key binding: a character with one modifier.
#[derive(PartialEq, Eq, Structural, Clone, Copy, Debug)]
pub struct Keybinding {
    pub modifier: KeyModifier,
    pub key: char,
}

/// The key bindings of the picker.
#[derive(PartialEq, Eq, Structural, Clone, Copy, Debug)]
pub struct Keybindings {
    /// Opens the configuration file in an editor.
    pub edit: Keybinding,
    /// Reads the configuration file again.
    pub reload: Keybinding,
    /// Switches to filtering by label.
    pub switch_filter_label: Keybinding,
    /// Switches to filtering by number.
    pub switch_filter_id: Keybinding,
    /// Shows descriptions in place of names.
    pub describe: Keybinding,
}

/// Why a key binding could not be read.
#[derive(Debug)]
pub enum KeybindingError {
    /// The text does not consist of two words; it is kept here.
    InvalidFormat(String),
    /// The first word names no modifier.
    UnsupportedModifier,
}

/// Why a key binding could not be read, as mathematical values.
pub enum KeybindingFailure {
    InvalidFormat(Seq<char>),
    UnsupportedModifier,
}

impl KeybindingFailure {
    /// The message shown for the failure.
    pub open spec fn message(self) -> Seq<char> {
        match self {
            KeybindingFailure::InvalidFormat(binding) => "Invalid keybinding format: "@ + binding,
            KeybindingFailure::UnsupportedModifier => "unsupported modifier"@,
        }
    }
}

impl View for KeybindingError {
    type V = KeybindingFailure;

    open spec fn view(&self) -> KeybindingFailure {
        match self {
            KeybindingError::InvalidFormat(binding) => KeybindingFailure::InvalidFormat(binding@),
            KeybindingError::UnsupportedModifier => KeybindingFailure::UnsupportedModifier,
        }
    }
}

impl KeybindingError {
    /// The message shown for the error.
    pub fn message(&self) -> (text: String)
        ensures
            text@ == self@.message(),
    {
        match self {
            KeybindingError::InvalidFormat(binding) => {
                let mut text = "Invalid keybinding format: ".to_string();
                text.append(binding.as_str());
                text
            },
            KeybindingError::UnsupportedModifier => "unsupported modifier".to_string(),
        }
    }
}

/// A character with the capital letters `A` to `Z` made small.
pub open spec fn ascii_lower(c: char) -> char {
    if 65 <= c as int <= 90 {
        ((c as int) + 32) as char
    } else {
        c
    }
}

/// The modifier that a name stands for. Capital and small letters count
/// the same.
pub open spec fn modifier_named(name: Seq<char>) -> Option<KeyModifier> {
    let lower = name.map_values(|c: char| ascii_lower(c));
    if lower == "shift"@ {
        Some(KeyModifier::Shift)
    } else if lower == "alt"@ {
        Some(KeyModifier::Alt)
    } else if lower == "ctrl"@ {
        Some(KeyModifier::Ctrl)
    } else if lower == "super"@ {
        Some(KeyModifier::Super)
    } else {
        None
    }
}

/// `zellij_tile::prelude::KeyModifier::from_str`: the name is put into
/// small ASCII letters and compared with `shift`, `alt`, `ctrl` and `super`;
/// any other name is an error, given here as `None`.
#[verifier::external_body]
fn modifier_from_str(name: &str) -> (modifier: Option<KeyModifier>)
    ensures
        modifier == modifier_named(name@),
{
    match zellij_tile::prelude::KeyModifier::from_str(name) {
        Ok(zellij_tile::prelude::KeyModifier::Ctrl) => Some(KeyModifier::Ctrl),
        Ok(zellij_tile::prelude::KeyModifier::Alt) => Some(KeyModifier::Alt),
        Ok(zellij_tile::prelude::KeyModifier::Shift) => Some(KeyModifier::Shift),
        Ok(zellij_tile::prelude::KeyModifier::Super) => Some(KeyModifier::Super),
        Err(_) => None,
    }
}

/// What a text gives as a key binding: it must consist of two words, the
/// name of a modifier and a word whose first character is the key.
pub open spec fn binding_of(binding: Seq<char>) -> Result<Keybinding, KeybindingFailure> {
    let parts = words(binding);
    if parts.len() != 2 {
        Err(KeybindingFailure::InvalidFormat(binding))
    } else {
        match modifier_named(parts[0]) {
            None => Err(KeybindingFailure::UnsupportedModifier),
            Some(modifier) => Ok(Keybinding { modifier: modifier, key: parts[1][0] }),
        }
    }
}

/// The text `Ctrl e` reads as the key `e` with the control key, and so
/// does any text of a modifier's name, one white-space character and a word,
/// with the first character of the word as the key.
pub proof fn lemma_binding_of_two_words(name: Seq<char>, gap: char, word: Seq<char>)
    requires
        crate::text::is_word(name),
        crate::text::is_word(word),
        crate::text::white_space(gap),
    ensures
        binding_of(name + seq![gap] + word) == match modifier_named(name) {
            Some(modifier) => Ok::<Keybinding, KeybindingFailure>(
                Keybinding { modifier: modifier, key: word[0] },
            ),
            None => Err::<Keybinding, KeybindingFailure>(KeybindingFailure::UnsupportedModifier),
        },
        binding_of("Ctrl e"@) == Ok::<Keybinding, KeybindingFailure>(
            Keybinding { modifier: KeyModifier::Ctrl, key: 'e' },
        ),
{
    crate::text::lemma_two_words(name, gap, word);
    reveal_strlit("Ctrl e");
    reveal_strlit("ctrl");
    reveal_strlit("shift");
    reveal_strlit("alt");
    let ctrl = seq!['C', 't', 'r', 'l'];
    let e = seq!['e'];
    crate::text::lemma_two_words(ctrl, ' ', e);
    assert("Ctrl e"@ =~= ctrl + seq![' '] + e);
    assert(ctrl.map_values(|c: char| ascii_lower(c)) =~= "ctrl"@);
}

/// A result of reading a key binding, as mathematical values.
pub open spec fn binding_view(r: Result<Keybinding, KeybindingError>) -> Result<
    Keybinding,
    KeybindingFailure,
> {
    match r {
        Ok(binding) => Ok(binding),
        Err(e) => Err(e@),
    }
}

/// Reads a key binding from a text such as `Ctrl e`.
pub fn parse_key_info(binding: &str) -> (r: Result<Keybinding, KeybindingError>)
    ensures
        binding_view(r) == binding_of(binding@),
{
    let parts = split_whitespace(binding);
    if parts.len() != 2 {
        return Err(KeybindingError::InvalidFormat(binding.to_string()));
    }
    let modifier = match modifier_from_str(parts[0].as_str()) {
        Some(modifier) => modifier,
        None => {
            return Err(KeybindingError::UnsupportedModifier);
        },
    };
    let chars = chars_of(parts[1].as_str());
    proof {
        lemma_words_hold_no_white_space(binding@);
    }
    Ok(Keybinding::new(modifier, chars[0]))
}

impl Keybinding {
    /// The binding of `key` with `modifier`.
    pub fn new(modifier: KeyModifier, key: char) -> (binding: Keybinding)
        ensures
            binding == (Keybinding { modifier: modifier, key: key }),
    {
        Keybinding { modifier, key }
    }
}

impl Default for Keybindings {
    fn default() -> (bindings: Keybindings)
        ensures
            bindings == Keybindings::defaults(),
    {
        Keybindings {
            edit: Keybinding::new(KeyModifier::Ctrl, 'e'),
            reload: Keybinding::new(KeyModifier::Ctrl, 'r'),
            switch_filter_label: Keybinding::new(KeyModifier::Ctrl, 'l'),
            switch_filter_id: Keybinding::new(KeyModifier::Ctrl, 'i'),
            describe: Keybinding::new(KeyModifier::Ctrl, 'd'),
        }
    }
}

/// The binding that a configuration gives under `name`: the one read from
/// its text, or `current` where the configuration has no such key.
pub open spec fn configured_binding(
    conf: Map<Seq<char>, Seq<char>>,
    name: Seq<char>,
    current: Keybinding,
) -> Result<Keybinding, KeybindingFailure> {
    if conf.contains_key(name) {
        binding_of(conf[name])
    } else {
        Ok(current)
    }
}

impl Keybindings {
    /// The bindings that hold where the configuration names no others.
    pub open spec fn defaults() -> Keybindings {
        Keybindings {
            edit: Keybinding { modifier: KeyModifier::Ctrl, key: 'e' },
            reload: Keybinding { modifier: KeyModifier::Ctrl, key: 'r' },
            switch_filter_label: Keybinding { modifier: KeyModifier::Ctrl, key: 'l' },
            switch_filter_id: Keybinding { modifier: KeyModifier::Ctrl, key: 'i' },
            describe: Keybinding { modifier: KeyModifier::Ctrl, key: 'd' },
        }
    }

    /// The bindings that a configuration gives. The keys `bind_edit`,
    /// `bind_reload`, `bind_switch_filter_label`, `bind_switch_filter_id`
    /// and `bind_describe` are read in this order; the first that cannot be
    /// read is the outcome.
    pub open spec fn configured(conf: Map<Seq<char>, Seq<char>>) -> Result<
        Keybindings,
        KeybindingFailure,
    > {
        let d = Keybindings::defaults();
        match configured_binding(conf, "bind_edit"@, d.edit) {
            Err(e) => Err(e),
            Ok(edit) => match configured_binding(conf, "bind_reload"@, d.reload) {
                Err(e) => Err(e),
                Ok(reload) => match configured_binding(
                    conf,
                    "bind_switch_filter_label"@,
                    d.switch_filter_label,
                ) {
                    Err(e) => Err(e),
                    Ok(switch_filter_label) => match configured_binding(
                        conf,
                        "bind_switch_filter_id"@,
                        d.switch_filter_id,
                    ) {
                        Err(e) => Err(e),
                        Ok(switch_filter_id) => match configured_binding(
                            conf,
                            "bind_describe"@,
                            d.describe,
                        ) {
                            Err(e) => Err(e),
                            Ok(describe) => Ok(
                                Keybindings {
                                    edit: edit,
                                    reload: reload,
                                    switch_filter_label: switch_filter_label,
                                    switch_filter_id: switch_filter_id,
                                    describe: describe,
                                },
                            ),
                        },
                    },
                },
            },
        }
    }

    fn read(conf: &VarMap, name: &str, current: Keybinding) -> (r: Result<
        Keybinding,
        KeybindingError,
    >)
        ensures
            binding_view(r) == configured_binding(conf@, name@, current),
    {
        match conf.get(name) {
            Some(value) => parse_key_info(value.as_str()),
            None => Ok(current),
        }
    }

    /// The bindings that the configuration gives.
    pub fn new(conf: &VarMap) -> (r: Result<Keybindings, KeybindingError>)
        ensures
            match r {
                Ok(bindings) => Keybindings::configured(conf@) == Ok::<
                    Keybindings,
                    KeybindingFailure,
                >(bindings),
                Err(e) => Keybindings::configured(conf@) == Err::<Keybindings, KeybindingFailure>(
                    e@,
                ),
            },
    {
        let mut default = Keybindings::default();
        default.edit = Keybindings::read(conf, "bind_edit", default.edit)?;
        default.reload = Keybindings::read(conf, "bind_reload", default.reload)?;
        default.switch_filter_label = Keybindings::read(
            conf,
            "bind_switch_filter_label",
            default.switch_filter_label,
        )?;
        default.switch_filter_id = Keybindings::read(
            conf,
            "bind_switch_filter_id",
            default.switch_filter_id,
        )?;
        default.describe = Keybindings::read(conf, "bind_describe", default.describe)?;
        Ok(default)
    }
}

} // verus!

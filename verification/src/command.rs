//! The commands of an interactive session: what a line of input asks for, and
//! how a setting is changed by name.

use crate::agent::{Agent, AgentModel};
use crate::json::{json_model, json_text, json_unsigned, JsonModel, NumberModel};
use crate::stdtext::{slice_texts, str_trim, str_words, trimmed, words};
use crate::text::{ends_with, has_suffix, matches_at, occurs_at, str_eq};
use vstd::prelude::*;
use vstd::string::StringExecFns;
use vstd::string::StringSliceAdditionalSpecFns;
use vstd::utf8::encode_utf8;

verus! {

/// The value of a string of decimal digits.
pub open spec fn decimal_value(digits: Seq<u8>) -> nat
    decreases digits.len(),
{
    if digits.len() == 0 {
        0
    } else {
        decimal_value(digits.drop_last()) * 10 + (digits.last() - 48) as nat
    }
}

/// Every byte is a decimal digit.
pub open spec fn all_digits(digits: Seq<u8>) -> bool {
    forall|i: int| 0 <= i < digits.len() ==> 48 <= #[trigger] digits[i] <= 57
}

/// The digits of a number: the text without one leading plus sign.
pub open spec fn digits_of(text: Seq<u8>) -> Seq<u8> {
    if text.len() > 0 && text[0] == 43u8 {
        text.skip(1)
    } else {
        text
    }
}

/// The number that a text spells: an optional plus sign and then decimal
/// digits only, at least one, of a value that fits 64 bits.
pub open spec fn unsigned_of(text: Seq<u8>) -> Option<u64> {
    let digits = digits_of(text);
    if digits.len() > 0 && all_digits(digits) && decimal_value(digits) <= u64::MAX {
        Some(decimal_value(digits) as u64)
    } else {
        None
    }
}

/// More digits never spell less.
pub proof fn lemma_decimal_value_grows(digits: Seq<u8>, n: int)
    requires
        0 <= n <= digits.len(),
        all_digits(digits),
    ensures
        decimal_value(digits.take(n)) <= decimal_value(digits),
    decreases digits.len() - n,
{
    if n == digits.len() {
        assert(digits.take(n) =~= digits);
    } else {
        let next = digits.take(n + 1);
        assert(next.drop_last() =~= digits.take(n));
        assert(next.last() == digits[n]);
        lemma_decimal_value_grows(digits, n + 1);
    }
}

/// Reads an unsigned number.
pub fn parse_u64(text: &str) -> (r: Option<u64>)
    ensures
        r == unsigned_of(text.spec_bytes()),
{
    let bytes = text.as_bytes();
    let start: usize = if bytes.len() > 0 && bytes[0] == 43u8 {
        1
    } else {
        0
    };
    let ghost digits = digits_of(bytes@);
    assert(digits =~= bytes@.skip(start as int));
    if start == bytes.len() {
        return None;
    }
    let mut value: u64 = 0;
    let mut i: usize = start;
    while i < bytes.len()
        invariant
            start <= i <= bytes.len(),
            bytes@ == text.spec_bytes(),
            digits == digits_of(bytes@),
            digits == bytes@.skip(start as int),
            all_digits(digits.take(i - start)),
            value == decimal_value(digits.take(i - start)),
        decreases bytes.len() - i,
    {
        let b = bytes[i];
        proof {
            let next = digits.take(i - start + 1);
            assert(next.drop_last() =~= digits.take(i - start));
            assert(next.last() == b);
        }
        if b < 48 || b > 57 {
            assert(digits[i - start] == b);
            return None;
        }
        let d: u64 = (b - 48) as u64;
        if value > (u64::MAX - d) / 10 {
            proof {
                let next = digits.take(i - start + 1);
                assert(decimal_value(next) == value * 10 + d);
                assert(decimal_value(next) > u64::MAX);
                if all_digits(digits) {
                    lemma_decimal_value_grows(digits, i - start + 1);
                }
            }
            return None;
        }
        value = value * 10 + d;
        proof {
            let next = digits.take(i - start + 1);
            assert forall|k: int| 0 <= k < next.len() implies 48 <= #[trigger] next[k] <= 57 by {
                if k < i - start {
                    assert(next[k] == digits.take(i - start)[k]);
                }
            }
        }
        i += 1;
    }
    proof {
        assert(digits.take(i - start) =~= digits);
    }
    Some(value)
}

/// A generation setting that can be changed by name.
#[derive(Debug, Clone, Copy, PartialEq, Eq, Structural)]
pub enum Setting {
    Model,
    Temperature,
    TopP,
    TopK,
    FrequencyPenalty,
    MaxTokens,
}

impl Setting {
    /// The key under which the setting is sent.
    pub open spec fn key(self) -> Seq<char> {
        match self {
            Setting::Model => "model"@,
            Setting::Temperature => "temperature"@,
            Setting::TopP => "top_p"@,
            Setting::TopK => "top_k"@,
            Setting::FrequencyPenalty => "frequency_penalty"@,
            Setting::MaxTokens => "max_tokens"@,
        }
    }

    /// Whether the setting takes a non-negative integer.
    pub open spec fn is_count(self) -> bool {
        self == Setting::TopK || self == Setting::MaxTokens
    }

    /// Whether the setting takes a number with a fraction.
    pub open spec fn is_fraction(self) -> bool {
        self == Setting::Temperature || self == Setting::TopP || self
            == Setting::FrequencyPenalty
    }
}

/// The setting that a name stands for; `temp` is short for `temperature`.
pub open spec fn setting_of(name: Seq<char>) -> Option<Setting> {
    if name == "model"@ {
        Some(Setting::Model)
    } else if name == "temperature"@ || name == "temp"@ {
        Some(Setting::Temperature)
    } else if name == "top_p"@ {
        Some(Setting::TopP)
    } else if name == "top_k"@ {
        Some(Setting::TopK)
    } else if name == "frequency_penalty"@ {
        Some(Setting::FrequencyPenalty)
    } else if name == "max_tokens"@ {
        Some(Setting::MaxTokens)
    } else {
        None
    }
}

/// The setting that a key stands for: the one that its name stands for,
/// white space around the name not counting.
pub open spec fn setting_named(key: Seq<char>) -> Option<Setting> {
    setting_of(trimmed(key))
}

/// The setting that a name stands for.
pub fn setting_by_name(name: &str) -> (r: Option<Setting>)
    ensures
        r == setting_of(name@),
{
    if str_eq(name, "model") {
        Some(Setting::Model)
    } else if str_eq(name, "temperature") || str_eq(name, "temp") {
        Some(Setting::Temperature)
    } else if str_eq(name, "top_p") {
        Some(Setting::TopP)
    } else if str_eq(name, "top_k") {
        Some(Setting::TopK)
    } else if str_eq(name, "frequency_penalty") {
        Some(Setting::FrequencyPenalty)
    } else if str_eq(name, "max_tokens") {
        Some(Setting::MaxTokens)
    } else {
        None
    }
}

/// The setting that a key stands for.
pub fn parse_setting(key: &str) -> (r: Option<Setting>)
    ensures
        r == setting_named(key@),
{
    setting_by_name(str_trim(key))
}

/// The value that a setting gets from a text, or `None` where the text is no
/// value for it. The model takes any text; a count takes an unsigned number;
/// a fraction takes what the caller has read the text as, if anything.
pub open spec fn setting_value(
    setting: Setting,
    value: Seq<char>,
    fraction: Option<JsonModel>,
) -> Option<JsonModel> {
    if setting == Setting::Model {
        Some(JsonModel::Text(value))
    } else if setting.is_count() {
        match unsigned_of(encode_utf8(value)) {
            Some(n) => Some(JsonModel::Number(NumberModel::Unsigned(n))),
            None => None,
        }
    } else {
        fraction
    }
}

/// What is said where a setting is refused.
pub open spec fn refusal_text(key: Seq<char>, value: Seq<char>) -> Seq<char> {
    match setting_named(key) {
        Some(setting) => "Invalid "@ + setting.key() + " value: "@ + value,
        None => "Unknown key: "@ + key,
    }
}

/// The content of an optional JSON value.
pub open spec fn value_model(v: Option<serde_json::Value>) -> Option<JsonModel> {
    match v {
        Some(v) => Some(json_model(v)),
        None => None,
    }
}

/// Changes the setting called `key` to `value`.
///
/// `fraction` is the value read as a number with a fraction, where it can be
/// read so; only the temperature, the nucleus mass and the frequency penalty
/// look at it. Returns `None` where the setting is changed, and else what is
/// to be said: that the key is unknown, or that the value is no value for it.
/// A refused change leaves the agent as it was.
pub fn set_args(chat: &mut Agent, key: &str, value: &str, fraction: Option<serde_json::Value>) -> (r:
    Option<String>)
    requires
        old(chat)@.wf(),
    ensures
        final(chat)@.wf(),
        match setting_named(key@) {
            Some(setting) => match setting_value(setting, value@, value_model(fraction)) {
                Some(v) => r is None && final(chat)@ == (AgentModel {
                    settings: old(chat)@.settings.insert(setting.key(), v),
                    ..old(chat)@
                }),
                None => final(chat)@ == old(chat)@ && (r matches Some(said) && said@
                    == refusal_text(key@, value@)),
            },
            None => final(chat)@ == old(chat)@ && (r matches Some(said) && said@ == refusal_text(
                key@,
                value@,
            )),
        },
{
    let setting = match parse_setting(key) {
        Some(setting) => setting,
        None => {
            let mut said = String::from_str("Unknown key: ");
            said.append(key);
            return Some(said);
        },
    };
    let name = match setting {
        Setting::Model => {
            chat.set_model(value);
            return None;
        },
        Setting::TopK => {
            if let Some(n) = parse_u64(value) {
                chat.set_top_k(n);
                return None;
            }
            "top_k"
        },
        Setting::MaxTokens => {
            if let Some(n) = parse_u64(value) {
                chat.set_max_tokens(n);
                return None;
            }
            "max_tokens"
        },
        Setting::Temperature => {
            if let Some(v) = fraction {
                chat.set_temperature(v);
                return None;
            }
            "temperature"
        },
        Setting::TopP => {
            if let Some(v) = fraction {
                chat.set_top_p(v);
                return None;
            }
            "top_p"
        },
        Setting::FrequencyPenalty => {
            if let Some(v) = fraction {
                chat.set_frequency_penalty(v);
                return None;
            }
            "frequency_penalty"
        },
    };
    let mut said = String::from_str("Invalid ");
    said.append(name);
    said.append(" value: ");
    said.append(value);
    proof {
        assert(said@ =~= refusal_text(key@, value@));
    }
    Some(said)
}

/// What a line of an interactive session asks for.
#[derive(Debug)]
pub enum Command {
    /// Leave the session.
    Exit,
    /// List the models.
    ListModels,
    /// Change a setting: the key and the value.
    Change(String, String),
    /// A `:set` without key and value: say how it is used.
    ChangeUsage,
    /// Empty the history.
    Clear,
    /// Show the settings.
    Show,
    /// An empty line: nothing.
    Nothing,
    /// Anything else is said to the model.
    Say(String),
}

/// The mathematical content of a [`Command`].
pub enum CommandModel {
    Exit,
    ListModels,
    Change(Seq<char>, Seq<char>),
    ChangeUsage,
    Clear,
    Show,
    Nothing,
    Say(Seq<char>),
}

impl View for Command {
    type V = CommandModel;

    open spec fn view(&self) -> CommandModel {
        match self {
            Command::Exit => CommandModel::Exit,
            Command::ListModels => CommandModel::ListModels,
            Command::Change(key, value) => CommandModel::Change(key@, value@),
            Command::ChangeUsage => CommandModel::ChangeUsage,
            Command::Clear => CommandModel::Clear,
            Command::Show => CommandModel::Show,
            Command::Nothing => CommandModel::Nothing,
            Command::Say(text) => CommandModel::Say(text@),
        }
    }
}

/// A text begins with `prefix`.
pub open spec fn has_prefix(text: Seq<char>, prefix: Seq<char>) -> bool {
    occurs_at(encode_utf8(text), encode_utf8(prefix), 0)
}

/// What a line asks for. The line is taken as it is; the words of a `:set`
/// are its second and third.
pub open spec fn command_of(input: Seq<char>) -> CommandModel {
    if input == ":exit"@ || input == ":quit"@ || input == ":q"@ {
        CommandModel::Exit
    } else if input == ":list"@ || input == ":l"@ {
        CommandModel::ListModels
    } else if has_prefix(input, ":set "@) || has_prefix(input, ":s "@) {
        if words(input).len() < 3 {
            CommandModel::ChangeUsage
        } else {
            CommandModel::Change(words(input)[1], words(input)[2])
        }
    } else if input == ":clear"@ || input == ":c"@ {
        CommandModel::Clear
    } else if input == ":show"@ {
        CommandModel::Show
    } else if input.len() == 0 {
        CommandModel::Nothing
    } else {
        CommandModel::Say(input)
    }
}

/// Reads what a line asks for.
pub fn parse_command(input: &str) -> (r: Command)
    ensures
        r@ == command_of(input@),
{
    if str_eq(input, ":exit") || str_eq(input, ":quit") || str_eq(input, ":q") {
        Command::Exit
    } else if str_eq(input, ":list") || str_eq(input, ":l") {
        Command::ListModels
    } else if matches_at(input.as_bytes(), ":set ".as_bytes(), 0) || matches_at(
        input.as_bytes(),
        ":s ".as_bytes(),
        0,
    ) {
        let parts = str_words(input);
        if parts.len() < 3 {
            Command::ChangeUsage
        } else {
            Command::Change(String::from_str(parts[1]), String::from_str(parts[2]))
        }
    } else if str_eq(input, ":clear") || str_eq(input, ":c") {
        Command::Clear
    } else if str_eq(input, ":show") {
        Command::Show
    } else if input.is_empty() {
        Command::Nothing
    } else {
        Command::Say(String::from_str(input))
    }
}

/// Input is complete once it begins a command, which is a colon behind any
/// white space, or once it ends in an empty line.
pub open spec fn input_is_complete(input: Seq<char>) -> bool {
    has_prefix(trimmed(input), ":"@) || has_suffix(encode_utf8(input), "\n\n".spec_bytes())
}

/// Whether the input gathered so far is complete.
pub fn input_complete(input: &str) -> (r: bool)
    ensures
        r == input_is_complete(input@),
{
    matches_at(str_trim(input).as_bytes(), ":".as_bytes(), 0) || ends_with(
        input.as_bytes(),
        "\n\n".as_bytes(),
    )
}

} // verus!

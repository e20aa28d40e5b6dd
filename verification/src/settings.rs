//! The settings of the program, and reading them from a JSON document.
//!
//! The document is parsed by the `json` crate. What that crate returns is not
//! proved here; it is named, and the rules that say which settings a parsed
//! document gives, and which error, are verified over those names.
//!
//! The crate's parser counts the digits of a number's fraction in 16 bits
//! and fails on overflow where overflow is checked. A text with a run of
//! more than `MAX_DIGIT_RUN` digits is therefore never handed to it: it
//! counts as malformed.

use crate::text::{digit_runs_within, longest_digit_run};
use json::JsonValue;
use vstd::prelude::*;

verus! {

/// A value of a JSON document, as the `json` crate holds it.
#[verifier::external_type_specification]
#[verifier::external_body]
pub struct ExJsonValue(json::JsonValue);

/// The error with which the `json` crate refuses a text.
#[verifier::external_type_specification]
#[verifier::external_body]
pub struct ExJsonError(json::Error);

/// The document that `json::parse` returns for `text`, or `None` where it
/// refuses the text.
pub uninterp spec fn json_document(text: Seq<char>) -> Option<JsonValue>;

/// The value that indexing `value` by the key `key` gives.
pub uninterp spec fn json_member(value: JsonValue, key: Seq<char>) -> JsonValue;

/// The text that `JsonValue::as_str` returns for `value`.
pub uninterp spec fn json_text(value: JsonValue) -> Option<Seq<char>>;

/// The truth value that `JsonValue::as_bool` returns for `value`.
pub uninterp spec fn json_flag(value: JsonValue) -> Option<bool>;

/// The longest run of digits in a text that is handed to the parser.
pub const MAX_DIGIT_RUN: usize = 32768;

/// Calls `json::parse`.
///
/// Believed of it: the outcome depends on the text alone. `Ok` carries the
/// document that `json_document` names; `Err` comes exactly where that name
/// is `None`.
///
/// The parser lowers a 16-bit exponent by one for each digit of a fraction
/// whose digits so far are all zero, and panics where that overflows, in a
/// build that checks overflow. A fraction is a run of digits, so the bound on
/// the runs keeps the exponent at or above its least value.
#[verifier::external_body]
fn parse_document(text: &str) -> (parsed: Result<JsonValue, json::Error>)
    requires
        longest_digit_run(text@) <= MAX_DIGIT_RUN,
    ensures
        match parsed {
            Ok(document) => json_document(text@) == Some(document),
            Err(_) => json_document(text@) is None,
        },
{
    json::parse(text)
}

/// Indexes a JSON value by a key, as `value[key]` does through the crate's
/// impl of `Index<&str>`.
///
/// Believed of it: the value referred to depends on `value` and `key` alone;
/// `json_member` names it.
#[verifier::external_body]
fn member<'a>(value: &'a JsonValue, key: &str) -> (found: &'a JsonValue)
    ensures
        *found == json_member(*value, key@),
{
    &value[key]
}

/// Calls `JsonValue::as_str` and copies the text.
///
/// Believed of it: the outcome depends on `value` alone; `json_text` names it.
#[verifier::external_body]
fn text_of(value: &JsonValue) -> (text: Option<String>)
    ensures
        match text {
            Some(string) => json_text(*value) == Some(string@),
            None => json_text(*value) is None,
        },
{
    value.as_str().map(String::from)
}

/// Calls `JsonValue::as_bool`.
///
/// Believed of it: the outcome depends on `value` alone; `json_flag` names it.
#[verifier::external_body]
fn flag_of(value: &JsonValue) -> (flag: Option<bool>)
    ensures
        flag == json_flag(*value),
{
    value.as_bool()
}

/// What the program is set to do.
#[derive(Debug, Clone, PartialEq, Eq)]
pub struct Settings {
    /// Where the pool is stored.
    pub file_path: String,
    /// Whether candidates are drawn at random rather than from the front.
    pub random_selection: bool,
    /// Whether the chosen candidate leaves the pool.
    pub remove_on_select: bool,
}

/// The settings as plain values.
pub struct SettingsView {
    pub file_path: Seq<char>,
    pub random_selection: bool,
    pub remove_on_select: bool,
}

impl View for Settings {
    type V = SettingsView;

    open spec fn view(&self) -> SettingsView {
        SettingsView {
            file_path: self.file_path@,
            random_selection: self.random_selection,
            remove_on_select: self.remove_on_select,
        }
    }
}

/// Why a document gives no settings.
#[derive(Debug, Clone, Copy, PartialEq, Eq, Structural)]
pub enum SettingsError {
    /// The text is no JSON document, or holds a run of digits too long to be
    /// parsed.
    Malformed,
    /// The document has no text under `file_path`.
    FilePath,
    /// The document has no truth value under `random`.
    RandomSelection,
    /// The document has no truth value under `removeOnSelect`.
    RemoveOnSelect,
}

/// The text that reports `error` to the user.
pub open spec fn message_of(error: SettingsError) -> Seq<char> {
    match error {
        SettingsError::Malformed => "Failed to parse input file into proper json text"@,
        SettingsError::FilePath =>
            "Failed to parse file_path input parameters from json system"@,
        SettingsError::RandomSelection =>
            "Failed to parse random input parameters from json system"@,
        SettingsError::RemoveOnSelect =>
            "Failed to parse removeOnSelect input parameters from json system"@,
    }
}

impl SettingsError {
    /// The text that reports this error to the user.
    pub fn message(&self) -> (text: String)
        ensures
            text@ == message_of(*self),
    {
        match self {
            SettingsError::Malformed => String::from_str(
                "Failed to parse input file into proper json text",
            ),
            SettingsError::FilePath => String::from_str(
                "Failed to parse file_path input parameters from json system",
            ),
            SettingsError::RandomSelection => String::from_str(
                "Failed to parse random input parameters from json system",
            ),
            SettingsError::RemoveOnSelect => String::from_str(
                "Failed to parse removeOnSelect input parameters from json system",
            ),
        }
    }
}

/// The key under which a document holds the path of the pool's file.
pub const FILE_PATH_KEY: &'static str = "file_path";

/// The key under which a document says whether selection is random.
pub const RANDOM_KEY: &'static str = "random";

/// The key under which a document says whether the chosen candidate leaves
/// the pool.
pub const REMOVE_KEY: &'static str = "removeOnSelect";

/// The settings that three members of a document give, or the error for the
/// first of them that is missing, in the order path, random, remove.
pub open spec fn assembled(
    file_path: Option<Seq<char>>,
    random_selection: Option<bool>,
    remove_on_select: Option<bool>,
) -> Result<SettingsView, SettingsError> {
    match (file_path, random_selection, remove_on_select) {
        (None, _, _) => Err(SettingsError::FilePath),
        (Some(_), None, _) => Err(SettingsError::RandomSelection),
        (Some(_), Some(_), None) => Err(SettingsError::RemoveOnSelect),
        (Some(path), Some(random), Some(remove)) => Ok(
            SettingsView { file_path: path, random_selection: random, remove_on_select: remove },
        ),
    }
}

/// The settings that the text of a document gives, or why it gives none.
///
/// A text with a run of more than `MAX_DIGIT_RUN` digits is malformed, and so
/// is one that the parser refuses.
pub open spec fn settings_of(text: Seq<char>) -> Result<SettingsView, SettingsError> {
    if longest_digit_run(text) > MAX_DIGIT_RUN {
        Err(SettingsError::Malformed)
    } else {
        match json_document(text) {
            None => Err(SettingsError::Malformed),
            Some(document) => assembled(
                json_text(json_member(document, FILE_PATH_KEY@)),
                json_flag(json_member(document, RANDOM_KEY@)),
                json_flag(json_member(document, REMOVE_KEY@)),
            ),
        }
    }
}

/// Whether `settings` holds exactly what `expected` says.
pub open spec fn agrees(
    settings: Result<Settings, SettingsError>,
    expected: Result<SettingsView, SettingsError>,
) -> bool {
    match expected {
        Ok(view) => settings matches Ok(found) && found@ == view,
        Err(error) => settings == Err::<Settings, SettingsError>(error),
    }
}

impl Settings {
    /// Puts the settings together from the three members of a document, each
    /// already read as the kind of value it must be, or absent.
    pub fn from_members(
        file_path: Option<String>,
        random_selection: Option<bool>,
        remove_on_select: Option<bool>,
    ) -> (settings: Result<Settings, SettingsError>)
        ensures
            agrees(
                settings,
                assembled(
                    match file_path {
                        Some(path) => Some(path@),
                        None => None,
                    },
                    random_selection,
                    remove_on_select,
                ),
            ),
    {
        let file_path = match file_path {
            Some(path) => path,
            None => {
                return Err(SettingsError::FilePath);
            },
        };
        let random_selection = match random_selection {
            Some(random) => random,
            None => {
                return Err(SettingsError::RandomSelection);
            },
        };
        let remove_on_select = match remove_on_select {
            Some(remove) => remove,
            None => {
                return Err(SettingsError::RemoveOnSelect);
            },
        };
        Ok(Settings { file_path, random_selection, remove_on_select })
    }

    /// Reads the settings from the text of a JSON document.
    pub fn parse(text: &str) -> (settings: Result<Settings, SettingsError>)
        ensures
            agrees(settings, settings_of(text@)),
    {
        if !digit_runs_within(text, MAX_DIGIT_RUN) {
            return Err(SettingsError::Malformed);
        }
        let document = match parse_document(text) {
            Ok(document) => document,
            Err(_) => {
                return Err(SettingsError::Malformed);
            },
        };
        let file_path = text_of(member(&document, FILE_PATH_KEY));
        let random_selection = flag_of(member(&document, RANDOM_KEY));
        let remove_on_select = flag_of(member(&document, REMOVE_KEY));
        Settings::from_members(file_path, random_selection, remove_on_select)
    }
}

impl Default for Settings {
    /// The settings of a first run: the pool in `./res/input.list`, ordered
    /// selection, and the chosen candidate leaves the pool.
    fn default() -> (settings: Settings)
        ensures
            settings@ == (SettingsView {
                file_path: "./res/input.list"@,
                random_selection: false,
                remove_on_select: true,
            }),
    {
        Settings {
            file_path: String::from_str("./res/input.list"),
            random_selection: false,
            remove_on_select: true,
        }
    }
}

} // verus!

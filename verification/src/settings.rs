//! The settings table of a preprocessor (its `[preprocessor.<name>]` table in
//! `book.toml`), as plain values, and the errors that reading it can give.

use vstd::prelude::*;

verus! {

/// The value of one setting.
pub enum SettingValue {
    /// A string.
    Text(String),
    /// A boolean.
    Flag(bool),
    /// Any other kind of value, kept as its debug rendering (such as
    /// `Integer(3)`).
    Other(String),
}

impl SettingValue {
    /// A copy of this value.
    pub fn duplicate(&self) -> (r: SettingValue)
        ensures
            r == *self,
    {
        match self {
            SettingValue::Text(t) => SettingValue::Text(t.clone()),
            SettingValue::Flag(b) => SettingValue::Flag(*b),
            SettingValue::Other(d) => SettingValue::Other(d.clone()),
        }
    }
}

/// One key of a settings table with its value.
pub struct Setting {
    pub key: String,
    pub value: SettingValue,
}

/// A settings table: its keys with their values.
pub struct Settings {
    pub entries: Vec<Setting>,
}

/// The value that `entries` give `key`: that of the first entry with that key.
pub open spec fn setting_of(entries: Seq<Setting>, key: Seq<char>) -> Option<SettingValue>
    decreases entries.len(),
{
    if entries.len() == 0 {
        None
    } else if entries[0].key@ == key {
        Some(entries[0].value)
    } else {
        setting_of(entries.drop_first(), key)
    }
}

impl Settings {
    /// The value of `key` in this table.
    pub open spec fn value_of(&self, key: Seq<char>) -> Option<SettingValue> {
        setting_of(self.entries@, key)
    }

    /// The value of `key` in this table, if it has one.
    pub fn get(&self, key: &str) -> (r: Option<SettingValue>)
        ensures
            r == self.value_of(key@),
    {
        let wanted: String = key.to_owned();
        let mut i: usize = 0;
        assert(self.entries@.skip(0) =~= self.entries@);
        while i < self.entries.len()
            invariant
                i <= self.entries.len(),
                wanted@ == key@,
                setting_of(self.entries@, key@) == setting_of(self.entries@.skip(i as int), key@),
            decreases self.entries.len() - i,
        {
            assert(self.entries@.skip(i as int)[0] == self.entries@[i as int]);
            assert(self.entries@.skip(i as int).drop_first() =~= self.entries@.skip(i + 1));
            if self.entries[i].key == wanted {
                return Some(self.entries[i].value.duplicate());
            }
            i = i + 1;
        }
        None
    }
}

/// What went wrong while reading a settings table.
pub ghost enum ConfigFault {
    /// The setting under the key holds the value, which is not a string.
    NotAString(Seq<char>, SettingValue),
    /// The setting under the key holds the value, which is not a boolean.
    NotABool(Seq<char>, SettingValue),
    /// The marker does not make a valid regular expression.
    BadMarker(Seq<char>),
}

/// An error in the settings of a preprocessor.
pub enum ConfigError {
    /// The setting `key` holds `found`, which is not a string.
    NotAString { key: String, found: SettingValue },
    /// The setting `key` holds `found`, which is not a boolean.
    NotABool { key: String, found: SettingValue },
    /// The marker `marker` does not make a valid regular expression.
    BadMarker { marker: String },
}

impl View for ConfigError {
    type V = ConfigFault;

    open spec fn view(&self) -> ConfigFault {
        match self {
            ConfigError::NotAString { key, found } => ConfigFault::NotAString(key@, *found),
            ConfigError::NotABool { key, found } => ConfigFault::NotABool(key@, *found),
            ConfigError::BadMarker { marker } => ConfigFault::BadMarker(marker@),
        }
    }
}

/// What reading `key` from `cfg` as a string gives: nothing when the key is
/// absent, the string when it holds one, and an error otherwise.
pub open spec fn text_setting(cfg: Seq<Setting>, key: Seq<char>) -> Option<
    Result<Seq<char>, ConfigFault>,
> {
    match setting_of(cfg, key) {
        None => None,
        Some(SettingValue::Text(t)) => Some(Ok(t@)),
        Some(v) => Some(Err(ConfigFault::NotAString(key, v))),
    }
}

/// The text that `{:?}` writes for the string `s`: `s` in double quotes,
/// with the characters that `char::escape_debug` escapes escaped.
pub uninterp spec fn debug_text(s: Seq<char>) -> Seq<char>;

/// `s` as `{:?}` writes it, from `format!`.
#[verifier::external_body]
pub(crate) fn debug_string(s: &str) -> (r: String)
    ensures
        r@ == debug_text(s@),
{
    format!("{:?}", s)
}

/// How a setting value is shown in an error message: as the `{:?}` of the
/// `toml::Value` it came from.
pub open spec fn shown(v: SettingValue) -> Seq<char> {
    match v {
        SettingValue::Text(t) => "String("@ + debug_text(t@) + ")"@,
        SettingValue::Flag(b) => if b {
            "Boolean(true)"@
        } else {
            "Boolean(false)"@
        },
        SettingValue::Other(d) => d@,
    }
}

/// The message of a settings error.
pub open spec fn fault_message(f: ConfigFault) -> Seq<char> {
    match f {
        ConfigFault::NotAString(key, v) => key + " "@ + shown(v) + " is not a valid string"@,
        ConfigFault::NotABool(key, v) => key + " "@ + shown(v) + " is not a valid boolean type"@,
        ConfigFault::BadMarker(m) => "marker "@ + debug_text(m)
            + " has failed to be parsed into regular expression"@,
    }
}

impl SettingValue {
    /// How this value is shown in an error message.
    pub fn shown(&self) -> (r: String)
        ensures
            r@ == shown(*self),
    {
        match self {
            SettingValue::Text(t) => {
                let mut r: String = "String(".to_owned();
                r.append(debug_string(t.as_str()).as_str());
                r.append(")");
                r
            },
            SettingValue::Flag(b) => if *b {
                "Boolean(true)".to_owned()
            } else {
                "Boolean(false)".to_owned()
            },
            SettingValue::Other(d) => d.clone(),
        }
    }
}

impl ConfigError {
    /// The message that reports this error.
    pub fn message(&self) -> (r: String)
        ensures
            r@ == fault_message(self@),
    {
        match self {
            ConfigError::NotAString { key, found } => {
                let mut r: String = key.clone();
                r.append(" ");
                r.append(found.shown().as_str());
                r.append(" is not a valid string");
                r
            },
            ConfigError::NotABool { key, found } => {
                let mut r: String = key.clone();
                r.append(" ");
                r.append(found.shown().as_str());
                r.append(" is not a valid boolean type");
                r
            },
            ConfigError::BadMarker { marker } => {
                let mut r: String = "marker ".to_owned();
                r.append(debug_string(marker.as_str()).as_str());
                r.append(" has failed to be parsed into regular expression");
                r
            },
        }
    }
}

/// The string a setting gives, or `d` when it is absent.
pub open spec fn text_or(r: Option<Result<Seq<char>, ConfigFault>>, d: Seq<char>) -> Seq<char> {
    match r {
        Some(Ok(t)) => t,
        _ => d,
    }
}

/// The entries of an optional settings table.
pub open spec fn table_of(settings: Option<&Settings>) -> Option<Seq<Setting>> {
    match settings {
        Some(s) => Some(s.entries@),
        None => None,
    }
}

/// Reads `key` from `cfg` as a string: `None` when the key is absent, and an
/// error when its value is not a string.
pub fn get_value_to_str(cfg: &Settings, key: &str) -> (r: Option<Result<String, ConfigError>>)
    ensures
        match (r, text_setting(cfg.entries@, key@)) {
            (None, None) => true,
            (Some(Ok(s)), Some(Ok(t))) => s@ == t,
            (Some(Err(e)), Some(Err(f))) => e@ == f,
            _ => false,
        },
{
    match cfg.get(key) {
        Some(SettingValue::Text(t)) => Some(Ok(t)),
        Some(v) => Some(Err(ConfigError::NotAString { key: key.to_owned(), found: v })),
        None => None,
    }
}

} // verus!

//! The adapter's configuration: a single boolean option and its default.

use vstd::prelude::*;
use vstd::string::*;
use crate::strcmp::str_eq;

verus! {

/// The name of the one option the adapter understands.
pub open spec fn config_key() -> Seq<char> {
    "Always return query even if no results found"@
}

/// What one configuration entry holds; anything but a boolean reads as
/// malformed and falls back to the default when consulted.
pub enum EntryValue {
    Bool { value: bool },
    Other,
}

/// One named configuration entry.
pub struct ConfigEntry {
    pub name: String,
    pub value: EntryValue,
}

/// A configuration: named entries, looked up by exact name, first match
/// winning. The host pushes a persisted one in wholesale; the adapter only
/// ever reads the single boolean option.
pub struct Config {
    pub entries: Vec<ConfigEntry>,
}

/// The boolean a value holds, if it holds one.
pub open spec fn spec_entry_bool(v: EntryValue) -> Option<bool> {
    match v {
        EntryValue::Bool { value } => Some(value),
        EntryValue::Other => None,
    }
}

/// The first entry named `name`, if any.
pub open spec fn spec_lookup(entries: Seq<ConfigEntry>, name: Seq<char>) -> Option<EntryValue>
    decreases entries.len(),
{
    if entries.len() == 0 {
        None
    } else if entries[0].name@ == name {
        Some(entries[0].value)
    } else {
        spec_lookup(entries.drop_first(), name)
    }
}

/// The boolean stored under `name`: `None` when the name is absent or the
/// entry holds no boolean.
pub open spec fn spec_get_bool(c: Config, name: Seq<char>) -> Option<bool> {
    match spec_lookup(c.entries@, name) {
        Some(v) => spec_entry_bool(v),
        None => None,
    }
}

/// Whether the "always return the query" policy is on: the value of the named
/// option, or `true` when the option is missing or malformed.
pub open spec fn spec_include_query(c: Config) -> bool {
    match spec_get_bool(c, config_key()) {
        Some(b) => b,
        None => true,
    }
}

/// A configuration holding exactly the default: the single option, on.
pub open spec fn is_default_config(c: Config) -> bool {
    &&& c.entries@.len() == 1
    &&& c.entries@[0].name@ == config_key()
    &&& c.entries@[0].value == (EntryValue::Bool { value: true })
}

impl Config {
    /// An empty configuration.
    pub fn new() -> (r: Config)
        ensures
            r.entries@ == Seq::<ConfigEntry>::empty(),
    {
        Config { entries: Vec::new() }
    }

    /// Adds a named entry at the end.
    pub fn insert(&mut self, name: String, value: EntryValue)
        ensures
            final(self).entries@ == old(self).entries@.push(ConfigEntry { name, value }),
    {
        self.entries.push(ConfigEntry { name, value });
    }

    /// Reads the entry named `name` as a boolean; `None` when the name is
    /// absent or the entry holds no boolean.
    pub fn get_bool(&self, name: &str) -> (r: Option<bool>)
        ensures
            r == spec_get_bool(*self, name@),
    {
        let mut i: usize = 0;
        proof {
            assert(self.entries@.skip(0) =~= self.entries@);
        }
        while i < self.entries.len()
            invariant
                i <= self.entries@.len(),
                spec_lookup(self.entries@.skip(i as int), name@) == spec_lookup(
                    self.entries@,
                    name@,
                ),
            decreases self.entries@.len() - i,
        {
            proof {
                assert(self.entries@.skip(i as int)[0] == self.entries@[i as int]);
            }
            if str_eq(self.entries[i].name.as_str(), name) {
                return match &self.entries[i].value {
                    EntryValue::Bool { value } => Some(*value),
                    EntryValue::Other => None,
                };
            }
            proof {
                assert(self.entries@.skip(i as int).drop_first() =~= self.entries@.skip(
                    i as int + 1,
                ));
            }
            i = i + 1;
        }
        None
    }

    /// The policy switch, defaulting to on.
    pub fn include_query(&self) -> (r: bool)
        ensures
            r == spec_include_query(*self),
    {
        match self.get_bool("Always return query even if no results found") {
            Some(b) => b,
            None => true,
        }
    }
}

/// The configuration the adapter starts from and offers the host for editing:
/// the single option, on.
pub fn default_config() -> (r: Config)
    ensures
        is_default_config(r),
{
    let mut config = Config::new();
    config.insert(
        String::from_str("Always return query even if no results found"),
        EntryValue::Bool { value: true },
    );
    config
}

} // verus!

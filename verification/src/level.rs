//! Severity levels and their textual labels.

use vstd::prelude::*;
use vstd::string::*;
use crate::text::str_eq;

verus! {

/// How severe an event or span is.
#[derive(Clone, Copy, Debug, PartialEq, Eq, Structural, Hash)]
pub enum Level {
    Error,
    Warn,
    Info,
    Debug,
    Trace,
}

impl Level {
    /// Rank of the level: the more severe, the higher.
    /// `Error` > `Warn` > `Info` > `Debug` > `Trace`.
    pub open spec fn spec_severity(self) -> nat {
        match self {
            Level::Error => 4,
            Level::Warn => 3,
            Level::Info => 2,
            Level::Debug => 1,
            Level::Trace => 0,
        }
    }

    /// The upper-case label under which the level is written out.
    pub open spec fn spec_label(self) -> Seq<char> {
        match self {
            Level::Error => "ERROR"@,
            Level::Warn => "WARN"@,
            Level::Info => "INFO"@,
            Level::Debug => "DEBUG"@,
            Level::Trace => "TRACE"@,
        }
    }

    /// The level that a label stands for. A label that names no level reads as `Info`.
    pub open spec fn spec_from_label(label: Seq<char>) -> Level {
        if label == "ERROR"@ {
            Level::Error
        } else if label == "WARN"@ {
            Level::Warn
        } else if label == "DEBUG"@ {
            Level::Debug
        } else if label == "TRACE"@ {
            Level::Trace
        } else {
            Level::Info
        }
    }

    /// Rank of the level: the more severe, the higher.
    pub fn severity(self) -> (r: u8)
        ensures
            r == self.spec_severity(),
    {
        match self {
            Level::Error => 4,
            Level::Warn => 3,
            Level::Info => 2,
            Level::Debug => 1,
            Level::Trace => 0,
        }
    }

    /// The label of the level, as an owned string.
    pub fn label(self) -> (r: String)
        ensures
            r@ == self.spec_label(),
    {
        match self {
            Level::Error => String::from_str("ERROR"),
            Level::Warn => String::from_str("WARN"),
            Level::Info => String::from_str("INFO"),
            Level::Debug => String::from_str("DEBUG"),
            Level::Trace => String::from_str("TRACE"),
        }
    }

    /// Reads a label back. Anything that is not one of the five labels reads as `Info`.
    pub fn from_label(label: &str) -> (r: Level)
        ensures
            r == Level::spec_from_label(label@),
    {
        if str_eq(label, "ERROR") {
            Level::Error
        } else if str_eq(label, "WARN") {
            Level::Warn
        } else if str_eq(label, "DEBUG") {
            Level::Debug
        } else if str_eq(label, "TRACE") {
            Level::Trace
        } else {
            Level::Info
        }
    }
}

/// A level in the form in which it is stored and written out: its label.
///
/// Any text can stand here; one that is not the label of a level reads as
/// `Info`.
#[derive(Clone, Debug)]
pub struct SerializableLevel(pub String);

impl SerializableLevel {
    /// The level that the stored label stands for.
    pub open spec fn spec_level(self) -> Level {
        Level::spec_from_label(self.0@)
    }

    /// Stores `level` under its label.
    pub fn from_level(level: Level) -> (r: SerializableLevel)
        ensures
            r.0@ == level.spec_label(),
            r.spec_level() == level,
    {
        proof {
            lemma_label_round_trip(level);
        }
        SerializableLevel(level.label())
    }

    /// The level that the stored label stands for.
    pub fn level(&self) -> (r: Level)
        ensures
            r == self.spec_level(),
    {
        Level::from_label(self.0.as_str())
    }

    /// Whether the stored label stands for `level`.
    pub fn is_level(&self, level: Level) -> (r: bool)
        ensures
            r == (self.spec_level() == level),
    {
        self.level() == level
    }

    /// The stored label.
    pub fn to_string(&self) -> (r: String)
        ensures
            r@ == self.0@,
    {
        self.0.clone()
    }
}

impl PartialEq for SerializableLevel {
    fn eq(&self, other: &SerializableLevel) -> (r: bool) {
        self.0 == other.0
    }
}

impl vstd::std_specs::cmp::PartialEqSpecImpl for SerializableLevel {
    open spec fn obeys_eq_spec() -> bool {
        true
    }

    open spec fn eq_spec(&self, other: &SerializableLevel) -> bool {
        self.0@ == other.0@
    }
}

impl From<SerializableLevel> for Level {
    fn from(stored: SerializableLevel) -> (r: Level) {
        stored.level()
    }
}

impl vstd::std_specs::convert::FromSpecImpl<SerializableLevel> for Level {
    open spec fn obeys_from_spec() -> bool {
        true
    }

    open spec fn from_spec(stored: SerializableLevel) -> Level {
        stored.spec_level()
    }
}

/// Every level is recovered from its own label.
pub proof fn lemma_label_round_trip(level: Level)
    ensures
        Level::spec_from_label(level.spec_label()) == level,
{
    reveal_strlit("ERROR");
    reveal_strlit("WARN");
    reveal_strlit("INFO");
    reveal_strlit("DEBUG");
    reveal_strlit("TRACE");
    assert("ERROR"@.len() == 5);
    assert("WARN"@.len() == 4);
    assert("INFO"@[0] == 'I');
    assert("WARN"@[0] == 'W');
    assert("DEBUG"@[0] == 'D');
    assert("TRACE"@[0] == 'T');
    assert("ERROR"@[0] == 'E');
}

} // verus!

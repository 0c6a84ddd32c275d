//! The rule by which the link for the next packet is chosen.

use crate::text::{joined, same_text};
use vstd::prelude::*;
use vstd::string::StringExecFns;

verus! {

/// Scheduling mode.
#[derive(Clone, Copy, Debug, PartialEq, Eq, Structural)]
pub enum SchedulingMode {
    /// By capacity alone: window over packets in flight.
    Classic,
    /// By capacity and quality.
    Enhanced,
    /// By capacity and quality among the links whose round-trip time is close to
    /// the smallest.
    RttThreshold,
}

impl SchedulingMode {
    /// The mode's number.
    pub open spec fn number(self) -> u8 {
        match self {
            SchedulingMode::Classic => 0,
            SchedulingMode::Enhanced => 1,
            SchedulingMode::RttThreshold => 2,
        }
    }

    /// The mode's name.
    pub open spec fn name(self) -> Seq<char> {
        match self {
            SchedulingMode::Classic => "classic"@,
            SchedulingMode::Enhanced => "enhanced"@,
            SchedulingMode::RttThreshold => "rtt-threshold"@,
        }
    }

    /// The mode's number.
    pub fn as_u8(self) -> (n: u8)
        ensures
            n == self.number(),
    {
        match self {
            SchedulingMode::Classic => 0,
            SchedulingMode::Enhanced => 1,
            SchedulingMode::RttThreshold => 2,
        }
    }

    /// The mode of a number; enhanced where no mode has it.
    pub fn from_u8(value: u8) -> (mode: Self)
        ensures
            value <= 2 ==> mode.number() == value,
            value > 2 ==> mode is Enhanced,
    {
        if value == 0 {
            SchedulingMode::Classic
        } else if value == 2 {
            SchedulingMode::RttThreshold
        } else {
            SchedulingMode::Enhanced
        }
    }

    /// Whether the mode is classic.
    pub fn is_classic(self) -> (r: bool)
        ensures
            r == (self is Classic),
    {
        match self {
            SchedulingMode::Classic => true,
            _ => false,
        }
    }

    /// Whether the mode is enhanced.
    pub fn is_enhanced(self) -> (r: bool)
        ensures
            r == (self is Enhanced),
    {
        match self {
            SchedulingMode::Enhanced => true,
            _ => false,
        }
    }

    /// The mode's name.
    pub fn to_text(self) -> (s: String)
        ensures
            s@ == self.name(),
    {
        match self {
            SchedulingMode::Classic => "classic".to_owned(),
            SchedulingMode::Enhanced => "enhanced".to_owned(),
            SchedulingMode::RttThreshold => "rtt-threshold".to_owned(),
        }
    }

    /// The mode of a name; what is wrong with it where no mode has it.
    pub fn from_text(s: &str) -> (r: Result<Self, String>)
        ensures
            match r {
                Ok(mode) => mode.name() == s@,
                Err(message) => {
                    &&& forall|mode: SchedulingMode| #[trigger] mode.name() != s@
                    &&& message@ == "invalid mode '"@ + s@
                        + "': use classic, enhanced, or rtt-threshold"@
                },
            },
    {
        if same_text(s, "classic") {
            Ok(SchedulingMode::Classic)
        } else if same_text(s, "enhanced") {
            Ok(SchedulingMode::Enhanced)
        } else if same_text(s, "rtt-threshold") {
            Ok(SchedulingMode::RttThreshold)
        } else {
            let mut message: String = joined("invalid mode '", s);
            message.append("': use classic, enhanced, or rtt-threshold");
            Err(message)
        }
    }
}

impl Default for SchedulingMode {
    fn default() -> (mode: Self)
        ensures
            mode is Enhanced,
    {
        SchedulingMode::Enhanced
    }
}

impl std::str::FromStr for SchedulingMode {
    type Err = String;

    /// The mode of a name; what is wrong with it where no mode has it.
    fn from_str(s: &str) -> (r: Result<Self, String>)
        ensures
            match r {
                Ok(mode) => mode.name() == s@,
                Err(message) => {
                    &&& forall|mode: SchedulingMode| #[trigger] mode.name() != s@
                    &&& message@ == "invalid mode '"@ + s@
                        + "': use classic, enhanced, or rtt-threshold"@
                },
            },
    {
        SchedulingMode::from_text(s)
    }
}

/// No two modes share a number or a name.
pub proof fn modes_are_told_apart(a: SchedulingMode, b: SchedulingMode)
    ensures
        a.number() == b.number() ==> a == b,
        a.name() == b.name() ==> a == b,
{
    reveal_strlit("classic");
    reveal_strlit("enhanced");
    reveal_strlit("rtt-threshold");
    assert("classic"@.len() == 7 && "enhanced"@.len() == 8 && "rtt-threshold"@.len() == 13);
}

/// Each mode has its number and its name.
pub proof fn modes_have_their_names(mode: SchedulingMode)
    ensures
        mode is Classic <==> mode.number() == 0,
        mode is Enhanced <==> mode.number() == 1,
        mode is RttThreshold <==> mode.number() == 2,
        mode is Classic <==> mode.name() == "classic"@,
        mode is Enhanced <==> mode.name() == "enhanced"@,
        mode is RttThreshold <==> mode.name() == "rtt-threshold"@,
{
    modes_are_told_apart(mode, SchedulingMode::Classic);
    modes_are_told_apart(mode, SchedulingMode::Enhanced);
    modes_are_told_apart(mode, SchedulingMode::RttThreshold);
}

} // verus!

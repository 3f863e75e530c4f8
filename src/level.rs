use vstd::prelude::*;

verus! {

/// The severity of a log event, from the most to the least urgent.
#[derive(Clone, Copy, Debug, PartialEq, Eq, Structural)]
pub enum Severity {
    Critical,
    Error,
    Warning,
    Info,
    Debug,
    Trace,
}

/// The journal's priority levels, as in syslog.
#[derive(Clone, Copy, Debug, PartialEq, Eq, Structural)]
pub enum Priority {
    Emergency,
    Alert,
    Critical,
    Error,
    Warning,
    Notice,
    Info,
    Debug,
}

/// The priority that an event of a given severity is sent with. The scale
/// shifts by one step below `Warning`, so that `Info` lands on `Notice`,
/// the journal's default visible level.
pub open spec fn priority_of(level: Severity) -> Priority {
    match level {
        Severity::Critical => Priority::Critical,
        Severity::Error => Priority::Error,
        Severity::Warning => Priority::Warning,
        Severity::Info => Priority::Notice,
        Severity::Debug => Priority::Info,
        Severity::Trace => Priority::Debug,
    }
}

/// The syslog number of a priority, 0 for `Emergency` up to 7 for `Debug`.
pub open spec fn priority_code(p: Priority) -> u8 {
    match p {
        Priority::Emergency => 0,
        Priority::Alert => 1,
        Priority::Critical => 2,
        Priority::Error => 3,
        Priority::Warning => 4,
        Priority::Notice => 5,
        Priority::Info => 6,
        Priority::Debug => 7,
    }
}

/// Maps a severity to the journal priority it is sent with.
pub fn level_to_priority(level: Severity) -> (r: Priority)
    ensures
        r == priority_of(level),
{
    match level {
        Severity::Critical => Priority::Critical,
        Severity::Error => Priority::Error,
        Severity::Warning => Priority::Warning,
        Severity::Info => Priority::Notice,
        Severity::Debug => Priority::Info,
        Severity::Trace => Priority::Debug,
    }
}

impl Priority {
    /// The syslog number of this priority.
    pub fn numeric_level(&self) -> (r: u8)
        ensures
            r == priority_code(*self),
    {
        match self {
            Priority::Emergency => 0,
            Priority::Alert => 1,
            Priority::Critical => 2,
            Priority::Error => 3,
            Priority::Warning => 4,
            Priority::Notice => 5,
            Priority::Info => 6,
            Priority::Debug => 7,
        }
    }
}

/// Distinct severities are sent with distinct priorities, and every one of
/// them with a priority from `Critical` (2) down to `Debug` (7).
pub proof fn lemma_priority_mapping_injective(a: Severity, b: Severity)
    ensures
        a != b ==> priority_of(a) != priority_of(b),
        2 <= priority_code(priority_of(a)) <= 7,
{
}

} // verus!

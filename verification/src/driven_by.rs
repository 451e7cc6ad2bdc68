//! Who drives a browser session.

use vstd::prelude::*;

verus! {

/// Who is driving a browser session: a human through the panel, the agent through
/// its tool, or nobody. Both sides show it, so that a session can be handed over.
#[derive(Clone, Copy, Debug, PartialEq, Eq, Structural)]
pub enum DrivenBy {
    Idle,
    Human,
    Agent,
}

impl Default for DrivenBy {
    fn default() -> (r: DrivenBy)
        ensures
            r == DrivenBy::Idle,
    {
        DrivenBy::Idle
    }
}

/// The name that a driver is written as.
pub open spec fn driver_name(driver: DrivenBy) -> Seq<char> {
    match driver {
        DrivenBy::Idle => "idle"@,
        DrivenBy::Human => "human"@,
        DrivenBy::Agent => "agent"@,
    }
}

/// Different drivers have different names.
pub proof fn law_driver_names_differ(a: DrivenBy, b: DrivenBy)
    requires
        driver_name(a) == driver_name(b),
    ensures
        a == b,
{
    reveal_strlit("idle");
    reveal_strlit("human");
    reveal_strlit("agent");
    assert("idle"@.len() == 4);
    assert("human"@[0] == 'h');
    assert("agent"@[0] == 'a');
}

impl DrivenBy {
    /// The name that this driver is written as.
    pub fn as_str(self) -> (r: &'static str)
        ensures
            r@ == driver_name(self),
    {
        match self {
            DrivenBy::Idle => "idle",
            DrivenBy::Human => "human",
            DrivenBy::Agent => "agent",
        }
    }
}

/// A driver is written as what it is.
pub proof fn law_drivers_are_written_as_they_are(driver: DrivenBy)
    ensures
        driver_name(driver) == "human"@ <==> driver == DrivenBy::Human,
        driver_name(driver) == "agent"@ <==> driver == DrivenBy::Agent,
        driver_name(driver) == "idle"@ <==> driver == DrivenBy::Idle,
{
    reveal_strlit("idle");
    reveal_strlit("human");
    reveal_strlit("agent");
    assert("idle"@.len() == 4);
    assert("human"@[0] == 'h');
    assert("agent"@[0] == 'a');
}

} // verus!

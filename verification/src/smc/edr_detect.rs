//! Naming the security agent that may have denied the open.

use crate::text::{chars_of, contains_text, lower_chars, lowered, occurs};
use vstd::prelude::*;
use vstd::string::StringExecFns;

verus! {

/// How long the list of processes may take.
pub const PS_TIMEOUT_MS: u64 = 500;

/// The longest list of processes that is looked at.
pub const PS_MAX_BYTES: usize = 1_000_000;

/// The names of known agents, in the order in which they are looked for.
pub open spec fn known_agents() -> Seq<Seq<char>> {
    seq![
        "falcon-sensor"@,
        "falcond"@,
        "CrowdStrike"@,
        "SentinelAgent"@,
        "sentineld"@,
        "sentinel_agent"@,
        "JamfProtect"@,
        "jamfprotect"@,
        "JamfAAD"@,
        "com.jamf.protect"@,
        "EndpointSecurityService"@,
        "socketfilterfw"@,
    ]
}

/// The names of known agents.
pub fn edr_agent_names() -> (r: Vec<&'static str>)
    ensures
        r@.len() == known_agents().len(),
        forall|i: int| 0 <= i < r@.len() ==> (#[trigger] r@[i])@ == known_agents()[i],
{
    let r: Vec<&'static str> = vec![
        "falcon-sensor",
        "falcond",
        "CrowdStrike",
        "SentinelAgent",
        "sentineld",
        "sentinel_agent",
        "JamfProtect",
        "jamfprotect",
        "JamfAAD",
        "com.jamf.protect",
        "EndpointSecurityService",
        "socketfilterfw",
    ];
    r
}

/// The name of the `i`-th agent occurs in the list, whatever the case of its
/// letters.
pub open spec fn runs(i: int, list: Seq<char>) -> bool {
    occurs(lowered(known_agents()[i]), lowered(list))
}

/// The `i`-th agent is the first one whose name occurs in the list.
pub open spec fn first_running(i: int, list: Seq<char>) -> bool {
    &&& 0 <= i < known_agents().len()
    &&& runs(i, list)
    &&& forall|j: int| 0 <= j < i ==> !#[trigger] runs(j, list)
}

/// The agent that a list of processes shows: the first known one whose name
/// occurs in it. No list shows none.
pub fn detect_suspected_agent(ps_output: Option<&str>) -> (r: Option<String>)
    ensures
        match r {
            Some(name) => ps_output is Some && exists|i: int| #[trigger]
                first_running(i, ps_output->0@) && name@ == known_agents()[i],
            None => ps_output matches Some(list) ==> forall|i: int|
                0 <= i < known_agents().len() ==> !#[trigger] runs(i, list@),
        },
{
    match ps_output {
        None => None,
        Some(list) => {
            let raw: Vec<char> = chars_of(list);
            let haystack: Vec<char> = lower_chars(&raw);
            let names: Vec<&'static str> = edr_agent_names();
            let mut i: usize = 0;
            while i < names.len()
                invariant
                    i <= names@.len(),
                    names@.len() == known_agents().len(),
                    forall|k: int|
                        0 <= k < names@.len() ==> (#[trigger] names@[k])@ == known_agents()[k],
                    ps_output is Some && ps_output->0@ == list@,
                    haystack@ == lowered(list@),
                    forall|j: int| 0 <= j < i ==> !#[trigger] runs(j, list@),
                decreases names@.len() - i,
            {
                let name: Vec<char> = chars_of(names[i]);
                let needle: Vec<char> = lower_chars(&name);
                if contains_text(&haystack, &needle) {
                    let found: String = String::from_str(names[i]);
                    assert(first_running(i as int, list@) && found@ == known_agents()[i as int]);
                    return Some(found);
                }
                i = i + 1;
            }
            None
        },
    }
}

} // verus!

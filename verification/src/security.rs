//! Which environment variables survive the step to root.

use crate::text::same_text;
use vstd::prelude::*;

verus! {

/// The names that survive.
pub open spec fn allowed(name: Seq<char>) -> bool {
    ||| name == "PATH"@
    ||| name == "HOME"@
    ||| name == "USER"@
    ||| name == "LOGNAME"@
    ||| name == "SUDO_USER"@
    ||| name == "SUDO_UID"@
    ||| name == "SUDO_GID"@
    ||| name == "SUDO_COMMAND"@
    ||| name == "TERM"@
    ||| name == "SHELL"@
    ||| name == "FAND_SAFE_MIN_RPM"@
    ||| name == "FAND_ALLOW_TMP_CONFIG"@
}

/// The names that survive.
#[must_use]
pub fn allowlist() -> (r: Vec<&'static str>)
    ensures
        forall|i: int| 0 <= i < r@.len() ==> allowed((#[trigger] r@[i])@),
        forall|name: Seq<char>| #[trigger] allowed(name) ==> exists|i: int|
            0 <= i < r@.len() && (#[trigger] r@[i])@ == name,
{
    let r: Vec<&'static str> = vec![
        "PATH",
        "HOME",
        "USER",
        "LOGNAME",
        "SUDO_USER",
        "SUDO_UID",
        "SUDO_GID",
        "SUDO_COMMAND",
        "TERM",
        "SHELL",
        "FAND_SAFE_MIN_RPM",
        "FAND_ALLOW_TMP_CONFIG",
    ];
    assert forall|name: Seq<char>| #[trigger] allowed(name) implies exists|i: int|
        0 <= i < r@.len() && (#[trigger] r@[i])@ == name by {
        assert(r@[0]@ == "PATH"@ && r@[1]@ == "HOME"@ && r@[2]@ == "USER"@ && r@[3]@ == "LOGNAME"@
            && r@[4]@ == "SUDO_USER"@ && r@[5]@ == "SUDO_UID"@ && r@[6]@ == "SUDO_GID"@ && r@[7]@
            == "SUDO_COMMAND"@ && r@[8]@ == "TERM"@ && r@[9]@ == "SHELL"@ && r@[10]@
            == "FAND_SAFE_MIN_RPM"@ && r@[11]@ == "FAND_ALLOW_TMP_CONFIG"@);
    }
    r
}

/// Does a variable survive?
pub fn is_allowed(name: &str) -> (r: bool)
    ensures
        r == allowed(name@),
{
    let list: Vec<&'static str> = allowlist();
    let mut i: usize = 0;
    while i < list.len()
        invariant
            i <= list@.len(),
            forall|k: int| 0 <= k < list@.len() ==> allowed((#[trigger] list@[k])@),
            forall|n: Seq<char>| #[trigger] allowed(n) ==> exists|k: int|
                0 <= k < list@.len() && (#[trigger] list@[k])@ == n,
            forall|k: int| 0 <= k < i ==> (#[trigger] list@[k])@ != name@,
        decreases list@.len() - i,
    {
        if same_text(list[i], name) {
            return true;
        }
        i = i + 1;
    }
    false
}

/// Of the variables that are set, the places of those that have to go.
pub fn scrub_env(names: &Vec<String>) -> (r: Vec<usize>)
    ensures
        forall|i: int|
            0 <= i < r@.len() ==> #[trigger] r@[i] < names@.len() && !allowed(
                names@[r@[i] as int]@,
            ),
        forall|k: int|
            0 <= k < names@.len() && !allowed((#[trigger] names@[k])@) ==> exists|i: int|
                0 <= i < r@.len() && #[trigger] r@[i] == k,
{
    let mut r: Vec<usize> = Vec::new();
    let mut k: usize = 0;
    while k < names.len()
        invariant
            k <= names@.len(),
            forall|i: int|
                0 <= i < r@.len() ==> #[trigger] r@[i] < k && !allowed(names@[r@[i] as int]@),
            forall|j: int|
                0 <= j < k && !allowed((#[trigger] names@[j])@) ==> exists|i: int|
                    0 <= i < r@.len() && #[trigger] r@[i] == j,
        decreases names@.len() - k,
    {
        if !is_allowed(names[k].as_str()) {
            let ghost before = r@;
            r.push(k);
            assert(r@[before.len() as int] == k);
            assert forall|j: int| 0 <= j < k + 1 && !allowed((#[trigger] names@[j])@) implies exists|
                i: int,
            |
                0 <= i < r@.len() && #[trigger] r@[i] == j by {
                if j < k {
                    let i = choose|i: int| 0 <= i < before.len() && #[trigger] before[i] == j;
                    assert(r@[i] == j);
                }
            }
        }
        k = k + 1;
    }
    r
}

/// A name that starts with a prefix.
pub open spec fn starts_with(name: Seq<char>, prefix: Seq<char>) -> bool {
    name.len() >= prefix.len() && name.take(prefix.len() as int) == prefix
}

/// No variable of the dynamic linker or of the memory allocator survives.
pub proof fn law_injection_variables_go(name: Seq<char>)
    requires
        starts_with(name, "DYLD_"@) || starts_with(name, "Malloc"@),
    ensures
        !allowed(name),
{
    reveal_strlit("DYLD_");
    reveal_strlit("Malloc");
    reveal_strlit("PATH");
    reveal_strlit("HOME");
    reveal_strlit("USER");
    reveal_strlit("LOGNAME");
    reveal_strlit("SUDO_USER");
    reveal_strlit("SUDO_UID");
    reveal_strlit("SUDO_GID");
    reveal_strlit("SUDO_COMMAND");
    reveal_strlit("TERM");
    reveal_strlit("SHELL");
    reveal_strlit("FAND_SAFE_MIN_RPM");
    reveal_strlit("FAND_ALLOW_TMP_CONFIG");
    if starts_with(name, "DYLD_"@) {
        assert(name.take(5)[0] == 'D');
    } else {
        assert(name.take(6)[0] == 'M');
    }
    assert(name[0] == 'D' || name[0] == 'M');
}

} // verus!

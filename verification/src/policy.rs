//! The command safety policy: which proposals may run, and why not.

use vstd::prelude::*;
use crate::path::{path_starts_with, path_starts_with_str, path_within, path_within_str};
use crate::text::{contains, owned, str_contains};
use crate::types::{CommandProposal, PolicyDecision, RiskLevel};

verus! {

/// What `str::to_lowercase` returns for a string: the Unicode lower-case
/// mapping of its characters.
pub uninterp spec fn lowercase(s: Seq<char>) -> Seq<char>;

/// `str::to_lowercase`.
#[verifier::external_body]
pub(crate) fn to_lowercase(s: &str) -> (r: String)
    ensures
        r@ == lowercase(s@),
{
    s.to_lowercase()
}

/// The substrings that mark a command as destructive, privileged, reading
/// credentials or sending data out.
pub open spec fn destructive_patterns() -> Seq<Seq<char>> {
    seq![
        "rm -rf"@,
        "sudo "@,
        "chmod -r"@,
        "chown -r"@,
        "mkfs"@,
        "diskutil erase"@,
        "format "@,
        "security find-generic-password"@,
        "cat ~/.ssh"@,
        "cat /etc/passwd"@,
        "curl "@,
        "wget "@,
        "nc "@,
        "netcat "@,
        "scp "@,
        "rsync "@,
    ]
}

/// Whether a lower-cased command holds one of the destructive patterns.
pub open spec fn is_destructive(lower: Seq<char>) -> bool {
    exists|k: int| 0 <= k < destructive_patterns().len() && contains(lower, #[trigger] destructive_patterns()[k])
}

/// A policy decision as plain values.
pub struct DecisionView {
    pub allowed: bool,
    pub requires_approval: bool,
    pub risk_level: RiskLevel,
    pub reason: Seq<char>,
}

impl View for PolicyDecision {
    type V = DecisionView;

    open spec fn view(&self) -> DecisionView {
        DecisionView {
            allowed: self.allowed,
            requires_approval: self.requires_approval,
            risk_level: self.risk_level,
            reason: self.reason@,
        }
    }
}

/// The reason given for a working directory outside the workspace.
pub open spec fn outside_reason(cwd: Seq<char>) -> Seq<char> {
    "working directory is outside configured workspace: "@ + cwd
}

/// The reason given for a command that holds a destructive pattern.
pub open spec fn destructive_reason() -> Seq<char> {
    "command matches destructive, privileged, credential, or exfiltration pattern"@
}

/// The reason given for an allowed command.
pub open spec fn allowed_reason() -> Seq<char> {
    "command is allowed after explicit approval"@
}

/// Whether `cwd` is inside `workspace`: its components begin with the
/// workspace's as written, and still do once `.` and `..` are resolved.
pub open spec fn inside_workspace(cwd: Seq<char>, workspace: Seq<char>) -> bool {
    path_starts_with(cwd, workspace) && path_within(cwd, workspace)
}

/// The decision for a command run in `cwd` under `workspace`: blocked when
/// `cwd` is not inside the workspace, by its components as written or once
/// `.` and `..` are resolved; then blocked when the lower-cased command holds
/// a destructive pattern; else allowed at low risk. Every decision requires
/// approval.
pub open spec fn policy_decision(command: Seq<char>, cwd: Seq<char>, workspace: Seq<char>) -> DecisionView {
    if !inside_workspace(cwd, workspace) {
        DecisionView {
            allowed: false,
            requires_approval: true,
            risk_level: RiskLevel::Blocked,
            reason: outside_reason(cwd),
        }
    } else if is_destructive(lowercase(command)) {
        DecisionView {
            allowed: false,
            requires_approval: true,
            risk_level: RiskLevel::Blocked,
            reason: destructive_reason(),
        }
    } else {
        DecisionView {
            allowed: true,
            requires_approval: true,
            risk_level: RiskLevel::Low,
            reason: allowed_reason(),
        }
    }
}

/// Whether a lower-cased command holds a destructive pattern.
pub fn destructive(lower: &str) -> (b: bool)
    ensures
        b == is_destructive(lower@),
{
    let pats: Vec<&str> = vec![
        "rm -rf",
        "sudo ",
        "chmod -r",
        "chown -r",
        "mkfs",
        "diskutil erase",
        "format ",
        "security find-generic-password",
        "cat ~/.ssh",
        "cat /etc/passwd",
        "curl ",
        "wget ",
        "nc ",
        "netcat ",
        "scp ",
        "rsync ",
    ];
    assert(pats@.map_values(|p: &str| p@) =~= destructive_patterns());
    let mut i: usize = 0;
    while i < pats.len()
        invariant
            i <= pats.len(),
            pats@.map_values(|p: &str| p@) == destructive_patterns(),
            forall|k: int| 0 <= k < i ==> !contains(lower@, #[trigger] destructive_patterns()[k]),
        decreases pats.len() - i,
    {
        assert(pats@.map_values(|p: &str| p@)[i as int] == pats@[i as int]@);
        if str_contains(lower, pats[i]) {
            assert(contains(lower@, destructive_patterns()[i as int]));
            return true;
        }
        i = i + 1;
    }
    false
}

/// Decides whether a proposal may run under `workspace`.
pub fn evaluate(proposal: &CommandProposal, workspace: &str) -> (d: PolicyDecision)
    ensures
        d@ == policy_decision(proposal.command@, proposal.cwd@, workspace@),
{
    if !path_starts_with_str(proposal.cwd.as_str(), workspace) || !path_within_str(proposal.cwd.as_str(), workspace) {
        let mut reason = owned("working directory is outside configured workspace: ");
        reason.append(proposal.cwd.as_str());
        return PolicyDecision {
            allowed: false,
            requires_approval: true,
            risk_level: RiskLevel::Blocked,
            reason,
        };
    }
    let lower = to_lowercase(proposal.command.as_str());
    if destructive(lower.as_str()) {
        return PolicyDecision {
            allowed: false,
            requires_approval: true,
            risk_level: RiskLevel::Blocked,
            reason: owned(
                "command matches destructive, privileged, credential, or exfiltration pattern",
            ),
        };
    }
    PolicyDecision {
        allowed: true,
        requires_approval: true,
        risk_level: RiskLevel::Low,
        reason: owned("command is allowed after explicit approval"),
    }
}

/// Law: every decision, allowed or not, requires explicit approval.
pub proof fn law_every_decision_requires_approval(command: Seq<char>, cwd: Seq<char>, workspace: Seq<char>)
    ensures
        policy_decision(command, cwd, workspace).requires_approval,
{
}

/// Law: a command whose working directory is outside the workspace is
/// blocked, whatever the command.
pub proof fn law_outside_workspace_is_blocked(command: Seq<char>, cwd: Seq<char>, workspace: Seq<char>)
    requires
        !inside_workspace(cwd, workspace),
    ensures
        !policy_decision(command, cwd, workspace).allowed,
        policy_decision(command, cwd, workspace).risk_level == RiskLevel::Blocked,
{
}

/// Law: a command that holds a destructive pattern, in any letter case, is
/// blocked.
pub proof fn law_destructive_pattern_is_blocked(command: Seq<char>, cwd: Seq<char>, workspace: Seq<char>, k: int)
    requires
        0 <= k < destructive_patterns().len(),
        contains(lowercase(command), destructive_patterns()[k]),
    ensures
        !policy_decision(command, cwd, workspace).allowed,
        policy_decision(command, cwd, workspace).risk_level == RiskLevel::Blocked,
{
}

/// Law: a decision allows the command exactly when it is not blocked, and
/// exactly when the directory is inside the workspace and no destructive
/// pattern occurs.
pub proof fn law_allowed_iff_not_blocked(command: Seq<char>, cwd: Seq<char>, workspace: Seq<char>)
    ensures
        policy_decision(command, cwd, workspace).allowed <==> policy_decision(command, cwd, workspace).risk_level != RiskLevel::Blocked,
        policy_decision(command, cwd, workspace).allowed <==> (path_starts_with(cwd, workspace) && path_within(cwd, workspace) && !is_destructive(lowercase(command))),
{
}


/// Law: a command whose lower-cased text holds any of `rm -rf`, `sudo `,
/// `chmod -r`, `chown -r`, `mkfs`, `diskutil erase`, `format `,
/// `security find-generic-password`, `cat ~/.ssh`, `cat /etc/passwd`,
/// `curl `, `wget `, `nc `, `netcat `, `scp ` or `rsync ` is blocked; inside
/// the workspace the reason names the destructive pattern.
pub proof fn law_listed_patterns_are_blocked(command: Seq<char>, cwd: Seq<char>, workspace: Seq<char>)
    requires
        contains(lowercase(command), "rm -rf"@) || contains(lowercase(command), "sudo "@) || contains(lowercase(command), "chmod -r"@) || contains(lowercase(command), "chown -r"@) || contains(lowercase(command), "mkfs"@) || contains(lowercase(command), "diskutil erase"@) || contains(lowercase(command), "format "@) || contains(lowercase(command), "security find-generic-password"@) || contains(lowercase(command), "cat ~/.ssh"@) || contains(lowercase(command), "cat /etc/passwd"@) || contains(lowercase(command), "curl "@) || contains(lowercase(command), "wget "@) || contains(lowercase(command), "nc "@) || contains(lowercase(command), "netcat "@) || contains(lowercase(command), "scp "@) || contains(lowercase(command), "rsync "@),
    ensures
        !policy_decision(command, cwd, workspace).allowed,
        policy_decision(command, cwd, workspace).risk_level == RiskLevel::Blocked,
        policy_decision(command, cwd, workspace).requires_approval,
        inside_workspace(cwd, workspace) ==> policy_decision(command, cwd, workspace).reason
            == "command matches destructive, privileged, credential, or exfiltration pattern"@,
{
    if contains(lowercase(command), "rm -rf"@) { assert(destructive_patterns()[0] == "rm -rf"@); }
    if contains(lowercase(command), "sudo "@) { assert(destructive_patterns()[1] == "sudo "@); }
    if contains(lowercase(command), "chmod -r"@) { assert(destructive_patterns()[2] == "chmod -r"@); }
    if contains(lowercase(command), "chown -r"@) { assert(destructive_patterns()[3] == "chown -r"@); }
    if contains(lowercase(command), "mkfs"@) { assert(destructive_patterns()[4] == "mkfs"@); }
    if contains(lowercase(command), "diskutil erase"@) { assert(destructive_patterns()[5] == "diskutil erase"@); }
    if contains(lowercase(command), "format "@) { assert(destructive_patterns()[6] == "format "@); }
    if contains(lowercase(command), "security find-generic-password"@) { assert(destructive_patterns()[7] == "security find-generic-password"@); }
    if contains(lowercase(command), "cat ~/.ssh"@) { assert(destructive_patterns()[8] == "cat ~/.ssh"@); }
    if contains(lowercase(command), "cat /etc/passwd"@) { assert(destructive_patterns()[9] == "cat /etc/passwd"@); }
    if contains(lowercase(command), "curl "@) { assert(destructive_patterns()[10] == "curl "@); }
    if contains(lowercase(command), "wget "@) { assert(destructive_patterns()[11] == "wget "@); }
    if contains(lowercase(command), "nc "@) { assert(destructive_patterns()[12] == "nc "@); }
    if contains(lowercase(command), "netcat "@) { assert(destructive_patterns()[13] == "netcat "@); }
    if contains(lowercase(command), "scp "@) { assert(destructive_patterns()[14] == "scp "@); }
    if contains(lowercase(command), "rsync "@) { assert(destructive_patterns()[15] == "rsync "@); }
}

/// Law: a command run inside the workspace whose lower-cased text holds
/// none of those sixteen patterns is allowed at low risk, after approval.
pub proof fn law_unlisted_commands_are_allowed(command: Seq<char>, cwd: Seq<char>, workspace: Seq<char>)
    requires
        path_starts_with(cwd, workspace),
        path_within(cwd, workspace),
        !contains(lowercase(command), "rm -rf"@),
        !contains(lowercase(command), "sudo "@),
        !contains(lowercase(command), "chmod -r"@),
        !contains(lowercase(command), "chown -r"@),
        !contains(lowercase(command), "mkfs"@),
        !contains(lowercase(command), "diskutil erase"@),
        !contains(lowercase(command), "format "@),
        !contains(lowercase(command), "security find-generic-password"@),
        !contains(lowercase(command), "cat ~/.ssh"@),
        !contains(lowercase(command), "cat /etc/passwd"@),
        !contains(lowercase(command), "curl "@),
        !contains(lowercase(command), "wget "@),
        !contains(lowercase(command), "nc "@),
        !contains(lowercase(command), "netcat "@),
        !contains(lowercase(command), "scp "@),
        !contains(lowercase(command), "rsync "@),
    ensures
        policy_decision(command, cwd, workspace).allowed,
        policy_decision(command, cwd, workspace).risk_level == RiskLevel::Low,
        policy_decision(command, cwd, workspace).requires_approval,
        policy_decision(command, cwd, workspace).reason == "command is allowed after explicit approval"@,
{
    assert forall|k: int| 0 <= k < destructive_patterns().len() implies !contains(
        lowercase(command),
        #[trigger] destructive_patterns()[k],
    ) by {
    if k == 0 { assert(destructive_patterns()[k] == "rm -rf"@); }
    if k == 1 { assert(destructive_patterns()[k] == "sudo "@); }
    if k == 2 { assert(destructive_patterns()[k] == "chmod -r"@); }
    if k == 3 { assert(destructive_patterns()[k] == "chown -r"@); }
    if k == 4 { assert(destructive_patterns()[k] == "mkfs"@); }
    if k == 5 { assert(destructive_patterns()[k] == "diskutil erase"@); }
    if k == 6 { assert(destructive_patterns()[k] == "format "@); }
    if k == 7 { assert(destructive_patterns()[k] == "security find-generic-password"@); }
    if k == 8 { assert(destructive_patterns()[k] == "cat ~/.ssh"@); }
    if k == 9 { assert(destructive_patterns()[k] == "cat /etc/passwd"@); }
    if k == 10 { assert(destructive_patterns()[k] == "curl "@); }
    if k == 11 { assert(destructive_patterns()[k] == "wget "@); }
    if k == 12 { assert(destructive_patterns()[k] == "nc "@); }
    if k == 13 { assert(destructive_patterns()[k] == "netcat "@); }
    if k == 14 { assert(destructive_patterns()[k] == "scp "@); }
    if k == 15 { assert(destructive_patterns()[k] == "rsync "@); }
    }
}
} // verus!

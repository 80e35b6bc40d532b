use vstd::prelude::*;
use vstd::string::StringExecFns;

use crate::config::AccountRecord;

verus! {

/// The keystroke stream that signs one account in: the username, a tab to
/// reach the password field, the password, and the submitting return.
pub open spec fn login_sequence(username: Seq<char>, password: Seq<char>) -> Seq<char> {
    username + seq!['\t'] + password + seq!['\r']
}

/// The caption a bound window is given: the username in brackets before the
/// client's name.
pub open spec fn title_sequence(username: Seq<char>) -> Seq<char> {
    "["@ + username + "] Wizard101"@
}

/// The shell command that starts one client instance out of `path`.
pub open spec fn launch_command_sequence(path: Seq<char>) -> Seq<char> {
    "cmd /C cd "@ + path + " && start WizardGraphicalClient.exe -L login.us.wizard101.com 12000"@
}

/// Builds the login keystroke stream for one account.
pub fn login_keystrokes(username: &String, password: &String) -> (keys: String)
    ensures
        keys@ == login_sequence(username@, password@),
{
    let mut keys = username.clone();
    keys.append("\t");
    keys.append(password.as_str());
    keys.append("\r");
    proof {
        reveal_strlit("\t");
        reveal_strlit("\r");
        assert(("\t")@ =~= seq!['\t']);
        assert(("\r")@ =~= seq!['\r']);
        assert(keys@ =~= login_sequence(username@, password@));
    }
    keys
}

/// Builds the caption for the window bound to `username`.
pub fn window_title(username: &String) -> (title: String)
    ensures
        title@ == title_sequence(username@),
{
    let mut title = String::from_str("[");
    title.append(username.as_str());
    title.append("] Wizard101");
    proof {
        assert(title@ =~= title_sequence(username@));
    }
    title
}

/// Builds the shell command that starts one client instance from `path`.
pub fn launch_command(path: &String) -> (command: String)
    ensures
        command@ == launch_command_sequence(path@),
{
    let mut command = String::from_str("cmd /C cd ");
    command.append(path.as_str());
    command.append(" && start WizardGraphicalClient.exe -L login.us.wizard101.com 12000");
    proof {
        assert(command@ =~= launch_command_sequence(path@));
    }
    command
}

/// Everything needed to drive one bound window: the keystrokes to inject,
/// the caption to set, and the position to move it to.
pub struct SessionPlan {
    pub handle: u64,
    pub keystrokes: String,
    pub title: String,
    pub target_x: i32,
    pub target_y: i32,
}

/// The plan drives `handle` with exactly `account`'s login keystrokes,
/// caption and placement.
pub open spec fn plan_matches(plan: SessionPlan, account: AccountRecord, handle: u64) -> bool {
    &&& plan.handle == handle
    &&& plan.keystrokes@ == login_sequence(account.username@, account.password@)
    &&& plan.title@ == title_sequence(account.username@)
    &&& plan.target_x == account.target_x
    &&& plan.target_y == account.target_y
}

/// Positional binding: the i-th newly observed handle is paired with the
/// i-th configured account, in exactly the order the handles were yielded.
pub fn bind_sessions(accounts: &Vec<AccountRecord>, fresh: &Vec<u64>) -> (plans: Vec<SessionPlan>)
    requires
        fresh@.len() <= accounts@.len(),
    ensures
        plans@.len() == fresh@.len(),
        forall|i: int| 0 <= i < plans@.len() ==> plan_matches(
            #[trigger] plans@[i],
            accounts@[i],
            fresh@[i],
        ),
{
    let mut plans: Vec<SessionPlan> = Vec::new();
    let mut i: usize = 0;
    while i < fresh.len()
        invariant
            fresh@.len() <= accounts@.len(),
            i <= fresh@.len(),
            plans@.len() == i,
            forall|j: int| 0 <= j < i ==> plan_matches(#[trigger] plans@[j], accounts@[j], fresh@[j]),
        decreases fresh@.len() - i,
    {
        let account = &accounts[i];
        let plan = SessionPlan {
            handle: fresh[i],
            keystrokes: login_keystrokes(&account.username, &account.password),
            title: window_title(&account.username),
            target_x: account.target_x,
            target_y: account.target_y,
        };
        plans.push(plan);
        i += 1;
    }
    plans
}

} // verus!

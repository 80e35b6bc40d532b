use wizard_sessions::config::{AccountRecord, Config};
use wizard_sessions::orchestrator::{
    LaunchError, Orchestrator, Phase, ProcessIds, POLL_INTERVAL_MILLIS, WARMUP_MILLIS,
};
use wizard_sessions::plan::{bind_sessions, launch_command, login_keystrokes, window_title};
use wizard_sessions::snapshot::{class_filter, class_name_matches, distinct_handles, WindowSnapshot};

fn account(username: &str, password: &str, x: i32, y: i32) -> AccountRecord {
    AccountRecord {
        username: username.to_string(),
        password: password.to_string(),
        target_x: x,
        target_y: y,
    }
}

fn config(path: &str, accounts: Vec<AccountRecord>) -> Config {
    Config { launch_path: path.to_string(), accounts }
}

fn snapshot(handles: Vec<u64>) -> WindowSnapshot {
    WindowSnapshot { handles }
}

#[test]
fn new_window_difference_excludes_baseline() {
    let baseline = snapshot(vec![10, 20]);
    let current = snapshot(vec![10, 20, 30, 40]);
    let fresh = current.new_windows(&baseline);
    assert_eq!(fresh, vec![30, 40]);
    assert!(!fresh.contains(&10));
    assert!(!fresh.contains(&20));
}

#[test]
fn rescan_of_baseline_alone_is_empty() {
    let baseline = snapshot(vec![7, 8, 9]);
    let again = snapshot(vec![7, 8, 9]);
    let fresh = again.new_windows(&baseline);
    assert!(fresh.is_empty());
}

#[test]
fn difference_keeps_enumeration_order() {
    let baseline = snapshot(vec![2]);
    let current = snapshot(vec![9, 2, 5, 1]);
    let fresh = current.new_windows(&baseline);
    assert_eq!(fresh, vec![9, 5, 1]);
}

#[test]
fn class_filter_matches_substring() {
    let filter = b"Wizard Graphical Client".to_vec();
    assert!(class_name_matches(&b"Wizard Graphical Client".to_vec(), &filter));
    assert!(class_name_matches(&b"XWizard Graphical ClientY".to_vec(), &filter));
    assert!(!class_name_matches(&b"Notepad".to_vec(), &filter));
    assert!(!class_name_matches(&b"Wizard Graphical".to_vec(), &filter));
    assert!(class_name_matches(&b"anything".to_vec(), &Vec::new()));
}

#[test]
fn class_filter_exact() {
    assert_eq!(class_filter(), "Wizard Graphical Client");
}

#[test]
fn snapshot_membership() {
    let shot = snapshot(vec![5, 6]);
    assert!(shot.contains_handle(5));
    assert!(shot.contains_handle(6));
    assert!(!shot.contains_handle(7));
    assert_eq!(shot.count(), 2);
}

#[test]
fn distinct_handles_detects_duplicates() {
    assert!(distinct_handles(&vec![1, 2, 3]));
    assert!(distinct_handles(&Vec::new()));
    assert!(!distinct_handles(&vec![1, 2, 1]));
}

#[test]
fn login_keystrokes_exact() {
    let keys = login_keystrokes(&"alice".to_string(), &"pw1".to_string());
    assert_eq!(keys, "alice\tpw1\r");
}

#[test]
fn window_title_exact() {
    let title = window_title(&"alice".to_string());
    assert_eq!(title, "[alice] Wizard101");
}

#[test]
fn launch_command_exact() {
    let command = launch_command(&"C:\\Games\\Wizard101".to_string());
    assert_eq!(
        command,
        "cmd /C cd C:\\Games\\Wizard101 && start WizardGraphicalClient.exe -L login.us.wizard101.com 12000"
    );
}

#[test]
fn launch_error_message_exact() {
    let err = LaunchError {};
    assert_eq!(err.message(), "Failed to open Wizard101 process");
}

#[test]
fn poll_timing_constants() {
    assert_eq!(WARMUP_MILLIS, 2000);
    assert_eq!(POLL_INTERVAL_MILLIS, 500);
}

#[test]
fn binding_is_positional() {
    let accounts = vec![
        account("first", "a", 0, 0),
        account("second", "b", 10, 10),
        account("third", "c", 20, 20),
    ];
    let fresh = vec![30, 10, 20];
    let plans = bind_sessions(&accounts, &fresh);
    assert_eq!(plans.len(), 3);
    assert_eq!(plans[0].handle, 30);
    assert_eq!(plans[0].title, "[first] Wizard101");
    assert_eq!(plans[1].handle, 10);
    assert_eq!(plans[1].title, "[second] Wizard101");
    assert_eq!(plans[2].handle, 20);
    assert_eq!(plans[2].title, "[third] Wizard101");
}

#[test]
fn end_to_end_two_accounts() {
    let cfg = config(
        "C:\\Wizard101",
        vec![account("alice", "pw1", 100, 100), account("bob", "pw2", 400, 100)],
    );
    let mut orch = Orchestrator::new(cfg);
    assert!(matches!(&orch.phase, Phase::Idle));

    orch.capture_baseline(snapshot(Vec::new()));
    assert!(matches!(&orch.phase, Phase::BaselineCaptured));
    orch.start_launches();

    assert_eq!(orch.launches_remaining(), 2);
    let command = orch.next_launch_command();
    assert_eq!(
        command,
        "cmd /C cd C:\\Wizard101 && start WizardGraphicalClient.exe -L login.us.wizard101.com 12000"
    );
    orch.record_launch(&Ok(ProcessIds { process_id: 41, thread_id: 42 }));
    assert_eq!(orch.launches_remaining(), 1);
    orch.record_launch(&Ok(ProcessIds { process_id: 43, thread_id: 44 }));
    assert_eq!(orch.launches_remaining(), 0);
    assert!(matches!(&orch.phase, Phase::Polling));
    assert_eq!(orch.failures, 0);

    let plans = orch.poll(&snapshot(vec![11, 22])).expect("both windows appeared");
    assert!(matches!(&orch.phase, Phase::Done));
    assert_eq!(orch.bound_sessions, 2);
    assert_eq!(plans.len(), 2);

    assert_eq!(plans[0].handle, 11);
    assert_eq!(plans[0].keystrokes, "alice\tpw1\r");
    assert_eq!(plans[0].title, "[alice] Wizard101");
    assert_eq!(plans[0].target_x, 100);
    assert_eq!(plans[0].target_y, 100);

    assert_eq!(plans[1].handle, 22);
    assert_eq!(plans[1].keystrokes, "bob\tpw2\r");
    assert_eq!(plans[1].title, "[bob] Wizard101");
    assert_eq!(plans[1].target_x, 400);
    assert_eq!(plans[1].target_y, 100);
}

#[test]
fn preexisting_window_never_bound() {
    let cfg = config("C:\\Wizard101", vec![account("alice", "pw1", 100, 100)]);
    let mut orch = Orchestrator::new(cfg);
    orch.capture_baseline(snapshot(vec![77]));
    orch.start_launches();
    orch.record_launch(&Ok(ProcessIds { process_id: 1, thread_id: 2 }));

    // One matching window only: the poll must keep waiting.
    assert!(orch.poll(&snapshot(vec![77])).is_none());
    assert!(matches!(&orch.phase, Phase::Polling));

    // Two matching windows: act, and only on the new one.
    let plans = orch.poll(&snapshot(vec![77, 88])).expect("window appeared");
    assert_eq!(plans.len(), 1);
    assert_eq!(plans[0].handle, 88);
    assert_ne!(plans[0].handle, 77);
}

#[test]
fn stall_when_a_launch_fails() {
    let cfg = config(
        "C:\\Wizard101",
        vec![account("alice", "pw1", 100, 100), account("bob", "pw2", 400, 100)],
    );
    let mut orch = Orchestrator::new(cfg);
    orch.capture_baseline(snapshot(Vec::new()));
    orch.start_launches();
    orch.record_launch(&Ok(ProcessIds { process_id: 1, thread_id: 2 }));
    orch.record_launch(&Err(LaunchError {}));
    assert_eq!(orch.failures, 1);

    // Only the one successfully launched window ever appears; the poll is
    // bounded here so the stall is observed rather than hung on.
    for _ in 0..10 {
        assert!(orch.poll(&snapshot(vec![50])).is_none());
        assert!(matches!(&orch.phase, Phase::Polling));
    }
    assert_eq!(orch.bound_sessions, 0);
}

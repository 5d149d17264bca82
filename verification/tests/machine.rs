use rpcx_dispatch::error::CallError;
use rpcx_dispatch::modes::FailMode;
use rpcx_dispatch::policy::{Action, CallState, Slot};

type Step = (CallState, Action<u32>);

fn key(s: &str) -> String {
    s.to_owned()
}

fn call_failed(msg: &str) -> Result<u32, CallError> {
    Err(CallError::Call(rpcx_protocol::Error::from(msg.to_owned())))
}

fn connect_failed(msg: &str) -> Result<u32, CallError> {
    Err(CallError::Connection(rpcx_protocol::Error::from(msg.to_owned())))
}

fn text(e: &CallError) -> String {
    match e {
        CallError::ServerNotFound => "ServerNotFound".to_owned(),
        CallError::ClientNotFound => "ClientNotFound".to_owned(),
        CallError::Connection(e) => format!("Connection({})", e),
        CallError::Call(e) => format!("Call({})", e),
    }
}

fn show(a: &Action<u32>) -> String {
    match a {
        Action::Select => "Select".to_owned(),
        Action::Attempt { slot, watch } => format!("Attempt({:?}, watch={})", slot, watch),
        Action::Idle => "Idle".to_owned(),
        Action::Done(Ok(v)) => format!("Done(Ok({}))", v),
        Action::Done(Err(e)) => format!("Done(Err({}))", text(e)),
    }
}

fn started(mode: FailMode, oneway: bool, retry: u8, first: &str) -> CallState {
    let (call, action): Step = CallState::new(mode, oneway, retry).on_key(key(first));
    let watch = mode == FailMode::Failbackup && !oneway;
    assert_eq!(show(&action), format!("Attempt(Primary, watch={})", watch));
    call
}

#[test]
fn new_call_has_no_server() {
    let call = CallState::new(FailMode::Failtry, false, 3);
    assert!(!call.is_done());
    assert_eq!(call.latest_key(), None);
    assert_eq!(call.retries_left(), 3);
    assert!(call.tried().is_empty());
}

#[test]
fn empty_key_is_server_not_found_under_every_mode() {
    for mode in FailMode::all() {
        for oneway in [false, true] {
            let (call, action): Step = CallState::new(mode, oneway, 5).on_key(key(""));
            assert_eq!(show(&action), "Done(Err(ServerNotFound))");
            assert!(call.is_done());
            assert!(call.tried().is_empty());
        }
    }
}

#[test]
fn first_key_opens_the_primary_attempt() {
    let (call, action): Step =
        CallState::new(FailMode::Failfast, false, 2).on_key(key("tcp@a:1"));
    assert_eq!(show(&action), "Attempt(Primary, watch=false)");
    assert_eq!(call.latest_key(), Some(&key("tcp@a:1")));
    assert!(!call.is_done());
}

#[test]
fn only_failbackup_arms_the_trigger() {
    for mode in FailMode::all() {
        let (_, action): Step = CallState::new(mode, false, 2).on_key(key("tcp@a:1"));
        let watch = mode == FailMode::Failbackup;
        assert_eq!(show(&action), format!("Attempt(Primary, watch={})", watch));
        let (_, action): Step = CallState::new(mode, true, 2).on_key(key("tcp@a:1"));
        assert_eq!(show(&action), "Attempt(Primary, watch=false)");
    }
}

#[test]
fn reply_ends_the_call_under_every_mode() {
    for mode in FailMode::all() {
        let call = started(mode, false, 2, "tcp@a:1");
        let (call, action) = call.on_outcome(Slot::Primary, Ok(3));
        assert_eq!(show(&action), "Done(Ok(3))");
        assert!(call.is_done());
    }
}

#[test]
fn failfast_returns_the_first_error() {
    let call = started(FailMode::Failfast, false, 9, "tcp@a:1");
    let (call, action) = call.on_outcome(Slot::Primary, call_failed("boom"));
    assert_eq!(show(&action), "Done(Err(Call(boom)))");
    assert!(call.is_done());
    assert_eq!(call.retries_left(), 9);

    let call = started(FailMode::Failfast, false, 9, "tcp@a:1");
    let (_, action) = call.on_outcome(Slot::Primary, connect_failed("refused"));
    assert_eq!(show(&action), "Done(Err(Connection(refused)))");
}

#[test]
fn failtry_retries_then_gives_up() {
    let retry: u8 = 3;
    let mut call = started(FailMode::Failtry, false, retry, "tcp@a:1");
    let mut attempts = 1;
    let mut last = String::new();
    for i in 0..=retry {
        let (next, action) = call.on_outcome(Slot::Primary, call_failed(&format!("e{}", i)));
        call = next;
        last = show(&action);
        if let Action::Attempt { .. } = action {
            attempts += 1;
            assert_eq!(call.latest_key(), Some(&key("tcp@a:1")));
        }
    }
    assert_eq!(attempts, 4);
    assert_eq!(last, "Done(Err(Call(e3)))");
    assert!(call.is_done());
    assert_eq!(call.tried().len(), 1);
}

#[test]
fn failtry_returns_the_first_success() {
    let mut call = started(FailMode::Failtry, false, 5, "tcp@a:1");
    let mut attempts = 1;
    for i in 0..2 {
        let (next, action) = call.on_outcome(Slot::Primary, call_failed(&format!("e{}", i)));
        assert_eq!(show(&action), "Attempt(Primary, watch=false)");
        attempts += 1;
        call = next;
    }
    assert_eq!(call.retries_left(), 3);
    let (call, action) = call.on_outcome(Slot::Primary, Ok(42));
    assert_eq!(show(&action), "Done(Ok(42))");
    assert_eq!(attempts, 3);
    assert!(call.is_done());
}

#[test]
fn failtry_with_no_retries_is_failfast() {
    let call = started(FailMode::Failtry, false, 0, "tcp@a:1");
    let (_, action) = call.on_outcome(Slot::Primary, call_failed("only"));
    assert_eq!(show(&action), "Done(Err(Call(only)))");
}

#[test]
fn failover_moves_to_fresh_servers() {
    let call = started(FailMode::Failover, false, 3, "tcp@a:1");
    let (call, action) = call.on_outcome(Slot::Primary, call_failed("a down"));
    assert_eq!(show(&action), "Select");
    let (call, action): Step = call.on_key(key("tcp@b:1"));
    assert_eq!(show(&action), "Attempt(Primary, watch=false)");
    assert_eq!(call.latest_key(), Some(&key("tcp@b:1")));
    let (call, action) = call.on_outcome(Slot::Primary, connect_failed("b down"));
    assert_eq!(show(&action), "Select");
    let (call, action): Step = call.on_key(key("tcp@c:1"));
    assert_eq!(show(&action), "Attempt(Primary, watch=false)");
    let (call, action) = call.on_outcome(Slot::Primary, Ok(7));
    assert_eq!(show(&action), "Done(Ok(7))");
    assert_eq!(call.tried(), &vec![key("tcp@a:1"), key("tcp@b:1"), key("tcp@c:1")]);
    assert_eq!(call.retries_left(), 1);
}

#[test]
fn failover_stops_on_a_tried_or_empty_key() {
    for offered in ["tcp@a:1", ""] {
        let call = started(FailMode::Failover, false, 3, "tcp@a:1");
        let (call, action) = call.on_outcome(Slot::Primary, call_failed("a down"));
        assert_eq!(show(&action), "Select");
        let (call, action): Step = call.on_key(key(offered));
        assert_eq!(show(&action), "Done(Err(Call(a down)))");
        assert!(call.is_done());
    }
}

#[test]
fn failover_stops_when_retries_are_spent() {
    let call = started(FailMode::Failover, false, 1, "tcp@a:1");
    let (call, action) = call.on_outcome(Slot::Primary, call_failed("a down"));
    assert_eq!(show(&action), "Select");
    let (call, _): Step = call.on_key(key("tcp@b:1"));
    let (call, action) = call.on_outcome(Slot::Primary, call_failed("b down"));
    assert_eq!(show(&action), "Done(Err(Call(b down)))");
    assert!(call.is_done());
    assert_eq!(call.tried().len(), 2);
}

#[test]
fn failbackup_races_a_second_server_after_the_trigger() {
    let call = started(FailMode::Failbackup, false, 0, "tcp@a:1");
    let (call, action): Step = call.on_backup_due();
    assert_eq!(show(&action), "Select");
    let (call, action): Step = call.on_key(key("tcp@b:1"));
    assert_eq!(show(&action), "Attempt(Backup, watch=false)");
    assert_eq!(call.latest_key(), Some(&key("tcp@b:1")));
    let (call, action) = call.on_outcome(Slot::Backup, Ok(11));
    assert_eq!(show(&action), "Done(Ok(11))");
    assert!(call.is_done());
    let (_, action) = call.on_outcome(Slot::Primary, Ok(12));
    assert_eq!(show(&action), "Idle");
}

#[test]
fn failbackup_first_reply_wins() {
    let call = started(FailMode::Failbackup, false, 0, "tcp@a:1");
    let (call, _): Step = call.on_backup_due();
    let (call, _): Step = call.on_key(key("tcp@b:1"));
    let (_, action) = call.on_outcome(Slot::Primary, Ok(1));
    assert_eq!(show(&action), "Done(Ok(1))");
}

#[test]
fn failbackup_waits_for_the_other_when_one_fails() {
    let call = started(FailMode::Failbackup, false, 0, "tcp@a:1");
    let (call, _): Step = call.on_backup_due();
    let (call, _): Step = call.on_key(key("tcp@b:1"));
    let (call, action) = call.on_outcome(Slot::Backup, call_failed("b down"));
    assert_eq!(show(&action), "Idle");
    assert!(!call.is_done());
    let (_, action) = call.on_outcome(Slot::Primary, Ok(5));
    assert_eq!(show(&action), "Done(Ok(5))");
}

#[test]
fn failbackup_both_fail_returns_the_last_error() {
    let call = started(FailMode::Failbackup, false, 0, "tcp@a:1");
    let (call, _): Step = call.on_backup_due();
    let (call, _): Step = call.on_key(key("tcp@b:1"));
    let (call, action) = call.on_outcome(Slot::Primary, call_failed("a down"));
    assert_eq!(show(&action), "Idle");
    let (call, action) = call.on_outcome(Slot::Backup, call_failed("b down"));
    assert_eq!(show(&action), "Done(Err(Call(b down)))");
    assert!(call.is_done());
}

#[test]
fn failbackup_without_second_server_is_failfast() {
    for offered in ["", "tcp@a:1"] {
        let call = started(FailMode::Failbackup, false, 0, "tcp@a:1");
        let (call, _): Step = call.on_backup_due();
        let (call, action): Step = call.on_key(key(offered));
        assert_eq!(show(&action), "Idle");
        assert_eq!(call.tried().len(), 1);
        let (call, action) = call.on_outcome(Slot::Primary, call_failed("a down"));
        assert_eq!(show(&action), "Done(Err(Call(a down)))");
        assert!(call.is_done());
    }
}

#[test]
fn failbackup_failure_before_the_trigger_calls_the_backup() {
    let call = started(FailMode::Failbackup, false, 0, "tcp@a:1");
    let (call, action) = call.on_outcome(Slot::Primary, connect_failed("a down"));
    assert_eq!(show(&action), "Select");
    let (call, action): Step = call.on_key(key("tcp@b:1"));
    assert_eq!(show(&action), "Attempt(Backup, watch=false)");
    let (_, action) = call.on_outcome(Slot::Backup, call_failed("b down"));
    assert_eq!(show(&action), "Done(Err(Call(b down)))");

    let call = started(FailMode::Failbackup, false, 0, "tcp@a:1");
    let (call, _) = call.on_outcome(Slot::Primary, connect_failed("a down"));
    let (_, action): Step = call.on_key(key(""));
    assert_eq!(show(&action), "Done(Err(Connection(a down)))");
}

#[test]
fn failbackup_outcome_while_the_key_is_awaited() {
    let call = started(FailMode::Failbackup, false, 0, "tcp@a:1");
    let (call, _): Step = call.on_backup_due();
    let (call, action) = call.on_outcome(Slot::Primary, call_failed("a down"));
    assert_eq!(show(&action), "Idle");
    let (call, action): Step = call.on_key(key("tcp@b:1"));
    assert_eq!(show(&action), "Attempt(Backup, watch=false)");
    let (_, action) = call.on_outcome(Slot::Backup, Ok(9));
    assert_eq!(show(&action), "Done(Ok(9))");
}

#[test]
fn trigger_is_ignored_outside_failbackup() {
    for mode in [FailMode::Failover, FailMode::Failfast, FailMode::Failtry] {
        let call = started(mode, false, 2, "tcp@a:1");
        let (call, action): Step = call.on_backup_due();
        assert_eq!(show(&action), "Idle");
        let (_, action) = call.on_outcome(Slot::Primary, Ok(1));
        assert_eq!(show(&action), "Done(Ok(1))");
    }
    let call = started(FailMode::Failbackup, true, 2, "tcp@a:1");
    let (_, action): Step = call.on_backup_due();
    assert_eq!(show(&action), "Idle");
}

#[test]
fn oneway_never_retries() {
    for mode in FailMode::all() {
        let call = started(mode, true, 4, "tcp@a:1");
        let (call, action) = call.on_outcome(Slot::Primary, call_failed("send failed"));
        assert_eq!(show(&action), "Done(Err(Call(send failed)))");
        assert!(call.is_done());
        assert_eq!(call.retries_left(), 4);
    }
}

#[test]
fn outcome_for_an_idle_line_changes_nothing() {
    let call = started(FailMode::Failtry, false, 2, "tcp@a:1");
    let (call, action) = call.on_outcome(Slot::Backup, call_failed("stray"));
    assert_eq!(show(&action), "Idle");
    assert_eq!(call.retries_left(), 2);
    assert!(!call.is_done());
    let (_, action): Step = CallState::new(FailMode::Failtry, false, 2).on_outcome(Slot::Primary, Ok(1));
    assert_eq!(show(&action), "Idle");
}

#[test]
fn stray_key_changes_nothing() {
    let call = started(FailMode::Failover, false, 2, "tcp@a:1");
    let (call, action): Step = call.on_key(key("tcp@b:1"));
    assert_eq!(show(&action), "Idle");
    assert_eq!(call.tried().len(), 1);
}

#[test]
fn cancelled_call_issues_nothing() {
    let call = started(FailMode::Failtry, false, 3, "tcp@a:1");
    let call = call.cancel();
    assert!(call.is_done());
    let (call, action) = call.on_outcome(Slot::Primary, call_failed("late"));
    assert_eq!(show(&action), "Idle");
    let (call, action): Step = call.on_key(key("tcp@b:1"));
    assert_eq!(show(&action), "Idle");
    let (_, action): Step = call.on_backup_due();
    assert_eq!(show(&action), "Idle");
}

#[test]
fn dispatcher_errors_are_never_retried() {
    for mode in FailMode::all() {
        let call = started(mode, false, 4, "tcp@a:1");
        let (call, action) = call.on_outcome(Slot::Primary, Err(CallError::ClientNotFound));
        assert_eq!(show(&action), "Done(Err(ClientNotFound))");
        assert!(call.is_done());
        assert_eq!(call.retries_left(), 4);

        let call = started(mode, false, 4, "tcp@a:1");
        let (call, action) = call.on_outcome(Slot::Primary, Err(CallError::ServerNotFound));
        assert_eq!(show(&action), "Done(Err(ServerNotFound))");
        assert!(call.is_done());
    }
    let call = started(FailMode::Failbackup, false, 0, "tcp@a:1");
    let (call, _): Step = call.on_backup_due();
    let (call, _): Step = call.on_key(key("tcp@b:1"));
    let (call, action) = call.on_outcome(Slot::Backup, Err(CallError::ClientNotFound));
    assert_eq!(show(&action), "Done(Err(ClientNotFound))");
    assert!(call.is_done());
}

#[test]
fn which_errors_may_be_retried() {
    assert!(!CallError::ServerNotFound.is_retryable());
    assert!(!CallError::ClientNotFound.is_retryable());
    assert!(CallError::Connection(rpcx_protocol::Error::from("x".to_owned())).is_retryable());
    assert!(CallError::Call(rpcx_protocol::Error::from("x".to_owned())).is_retryable());
}

//! Whole runs of the call machine, and what holds of them.
//!
//! A run feeds a sequence of events to the machine, one after the other. It
//! records how many attempts the machine issued, because each attempt is one
//! invocation of a connection, and the result the call ended with.

use vstd::prelude::*;
use crate::error::CallError;
use crate::modes::FailMode;
use crate::policy::{
    ended, initial, is_fresh_key, other_slot, step, Action, CallModel, Input, Slot,
};

verus! {

/// What a run of the machine came to.
pub struct Run<T> {
    /// The state after the last event.
    pub state: CallModel,
    /// How many attempts were issued.
    pub attempts: nat,
    /// How often the selector was asked again after the first key.
    pub reselections: nat,
    /// The result the call ended with, if it has ended.
    pub result: Option<Result<T, CallError>>,
}

/// The run of the machine from state `s` on `inputs`.
pub open spec fn run<T>(s: CallModel, inputs: Seq<Input<T>>) -> Run<T>
    decreases inputs.len(),
{
    if inputs.len() == 0 {
        Run { state: s, attempts: 0, reselections: 0, result: None }
    } else {
        let (next, action) = step(s, inputs.first());
        let rest = run(next, inputs.drop_first());
        Run {
            state: rest.state,
            attempts: rest.attempts + if action is Attempt { 1nat } else { 0nat },
            reselections: rest.reselections + if action is Select { 1nat } else { 0nat },
            result: match action {
                Action::Done(result) => Some(result),
                _ => rest.result,
            },
        }
    }
}

/// The events in which every attempt on the primary line fails, with the
/// given errors in turn.
pub open spec fn failures<T>(errs: Seq<CallError>) -> Seq<Input<T>> {
    Seq::new(errs.len(), |i: int| Input::Outcome(Slot::Primary, Err(errs[i])))
}

/// Whether every error is one that a connection reported, so that a
/// failure mode may answer it with a further attempt.
pub open spec fn all_retryable(errs: Seq<CallError>) -> bool {
    forall|i: int| 0 <= i < errs.len() ==> (#[trigger] errs[i]).spec_is_retryable()
}

/// Whether no key occurs twice and none is empty.
pub open spec fn distinct_servers(keys: Seq<Seq<char>>) -> bool {
    &&& forall|i: int| 0 <= i < keys.len() ==> (#[trigger] keys[i]).len() > 0
    &&& forall|i: int, j: int| 0 <= i < j < keys.len() ==> keys[i] != keys[j]
}

/// A call that has ended takes no further part: whatever events follow, no
/// attempt is issued, the selector is not asked, and no second result
/// appears.
pub proof fn law_ended_call_is_inert<T>(s: CallModel, inputs: Seq<Input<T>>)
    requires
        s.phase is Done,
    ensures
        run(s, inputs) == (Run::<T> { state: s, attempts: 0, reselections: 0, result: None }),
    decreases inputs.len(),
{
    if inputs.len() > 0 {
        law_ended_call_is_inert(s, inputs.drop_first());
    }
}

/// Abandoning a call stops it: after `cancel`, no event yields an attempt.
pub proof fn law_cancelled_call_issues_nothing<T>(s: CallModel, inputs: Seq<Input<T>>)
    ensures
        run(ended(s), inputs).attempts == 0,
        run(ended(s), inputs).reselections == 0,
{
    law_ended_call_is_inert(ended(s), inputs);
}

/// Splitting a run: the events after the first are run from the state that
/// the first leaves.
proof fn lemma_run_unfold<T>(s: CallModel, first: Input<T>, rest: Seq<Input<T>>)
    ensures
        run(s, seq![first] + rest) == ({
            let (next, action) = step(s, first);
            let tail = run(next, rest);
            Run {
                state: tail.state,
                attempts: tail.attempts + if action is Attempt { 1nat } else { 0nat },
                reselections: tail.reselections + if action is Select { 1nat } else { 0nat },
                result: match action {
                    Action::Done(result) => Some(result),
                    _ => tail.result,
                },
            }
        }),
{
    let inputs = seq![first] + rest;
    assert(inputs.first() == first);
    assert(inputs.drop_first() =~= rest);
}

/// An empty key ends the call at once, under every mode: the result is
/// `ServerNotFound`, and no attempt is ever issued, so no connection is
/// created or invoked.
pub proof fn law_no_server_no_attempt<T>(
    mode: FailMode,
    oneway: bool,
    retry: nat,
    later: Seq<Input<T>>,
)
    ensures
        run(initial(mode, oneway, retry), seq![Input::Key(Seq::empty())] + later).attempts == 0,
        run(initial(mode, oneway, retry), seq![Input::Key(Seq::empty())] + later).reselections
            == 0,
        run(initial(mode, oneway, retry), seq![Input::Key(Seq::empty())] + later).result == Some(
            Err::<T, CallError>(CallError::ServerNotFound),
        ),
{
    let s = initial(mode, oneway, retry);
    lemma_run_unfold(s, Input::Key(Seq::empty()), later);
    law_ended_call_is_inert(ended(s), later);
}

/// `Failfast` returns the first outcome as it is. Where the first attempt
/// fails, the call ends with exactly that error after one attempt, and
/// nothing that follows adds an attempt or a selection.
pub proof fn law_failfast_returns_first_error<T>(
    key: Seq<char>,
    retry: nat,
    e: CallError,
    later: Seq<Input<T>>,
)
    requires
        key.len() > 0,
    ensures
        ({
            let inputs = seq![Input::Key(key), Input::Outcome(Slot::Primary, Err(e))] + later;
            let r = run::<T>(initial(FailMode::Failfast, false, retry), inputs);
            r.attempts == 1 && r.reselections == 0 && r.result == Some(Err::<T, CallError>(e))
        }),
{
    let s = initial(FailMode::Failfast, false, retry);
    let failure = Input::<T>::Outcome(Slot::Primary, Err(e));
    let inputs = seq![Input::Key(key), failure] + later;
    assert(inputs =~= seq![Input::Key(key)] + (seq![failure] + later));
    lemma_run_unfold(s, Input::Key(key), seq![failure] + later);
    let s1 = step(s, Input::<T>::Key(key)).0;
    lemma_run_unfold(s1, failure, later);
    law_ended_call_is_inert(ended(s1), later);
}

/// A one-way call is never retried: under every mode its first outcome,
/// reply or error, ends the call after one attempt.
pub proof fn law_oneway_never_retries<T>(
    mode: FailMode,
    key: Seq<char>,
    retry: nat,
    outcome: Result<T, CallError>,
    later: Seq<Input<T>>,
)
    requires
        key.len() > 0,
    ensures
        ({
            let inputs = seq![Input::Key(key), Input::Outcome(Slot::Primary, outcome)] + later;
            let r = run::<T>(initial(mode, true, retry), inputs);
            r.attempts == 1 && r.reselections == 0 && r.result == Some(outcome)
        }),
{
    let s = initial(mode, true, retry);
    let first = Input::<T>::Outcome(Slot::Primary, outcome);
    let inputs = seq![Input::Key(key), first] + later;
    assert(inputs =~= seq![Input::Key(key)] + (seq![first] + later));
    lemma_run_unfold(s, Input::Key(key), seq![first] + later);
    let s1 = step(s, Input::<T>::Key(key)).0;
    lemma_run_unfold(s1, first, later);
    law_ended_call_is_inert(ended(s1), later);
}

/// A run on events `head` followed by `tail` is the run on `head` continued
/// by the run on `tail` from the state in which `head` leaves the machine,
/// as long as `head` has not ended the call.
proof fn lemma_run_append<T>(s: CallModel, head: Seq<Input<T>>, tail: Seq<Input<T>>)
    requires
        run(s, head).result is None,
    ensures
        run(s, head + tail) == ({
            let first = run(s, head);
            let second = run(first.state, tail);
            Run {
                state: second.state,
                attempts: first.attempts + second.attempts,
                reselections: first.reselections + second.reselections,
                result: second.result,
            }
        }),
    decreases head.len(),
{
    if head.len() == 0 {
        assert(head + tail =~= tail);
    } else {
        let next = step(s, head.first()).0;
        assert((head + tail).first() == head.first());
        assert((head + tail).drop_first() =~= head.drop_first() + tail);
        lemma_run_append(next, head.drop_first(), tail);
    }
}

/// `Failtry`, from the first attempt on: while every attempt fails and
/// retries are left, the same attempt is issued again.
proof fn lemma_failtry_failures<T>(s: CallModel, errs: Seq<CallError>)
    requires
        s.phase is Single,
        s.mode == FailMode::Failtry,
        !s.oneway,
        errs.len() <= s.retries_left,
        all_retryable(errs),
    ensures
        run(s, failures::<T>(errs)) == (Run::<T> {
            state: CallModel { retries_left: (s.retries_left - errs.len()) as nat, ..s },
            attempts: errs.len(),
            reselections: 0,
            result: None,
        }),
    decreases errs.len(),
{
    if errs.len() > 0 {
        let next = step(s, failures::<T>(errs).first()).0;
        assert(errs[0].spec_is_retryable());
        assert(failures::<T>(errs).drop_first() =~= failures::<T>(errs.drop_first()));
        assert(all_retryable(errs.drop_first())) by {
            assert forall|i: int| 0 <= i < errs.drop_first().len() implies (
            #[trigger] errs.drop_first()[i]).spec_is_retryable() by {
                assert(errs[i + 1].spec_is_retryable());
            }
        }
        lemma_failtry_failures::<T>(next, errs.drop_first());
    }
}

/// `Failtry` with `retry` retries and a connection that always fails, with
/// errors of its own: the connection is invoked exactly `retry + 1` times,
/// and the call ends with the error of the last invocation.
pub proof fn law_failtry_gives_up_after_retries<T>(
    key: Seq<char>,
    retry: nat,
    errs: Seq<CallError>,
    later: Seq<Input<T>>,
)
    requires
        key.len() > 0,
        errs.len() == retry + 1,
        all_retryable(errs),
    ensures
        ({
            let inputs = seq![Input::Key(key)] + failures::<T>(errs) + later;
            let r = run::<T>(initial(FailMode::Failtry, false, retry), inputs);
            r.attempts == retry + 1 && r.reselections == 0 && r.result == Some(
                Err::<T, CallError>(errs.last()),
            )
        }),
{
    let s = initial(FailMode::Failtry, false, retry);
    let s1 = step(s, Input::<T>::Key(key)).0;
    let last = Input::<T>::Outcome(Slot::Primary, Err(errs.last()));
    let body = failures::<T>(errs.drop_last());
    assert(failures::<T>(errs) =~= body + seq![last]);
    assert(all_retryable(errs.drop_last())) by {
        assert forall|i: int| 0 <= i < errs.drop_last().len() implies (
        #[trigger] errs.drop_last()[i]).spec_is_retryable() by {
            assert(errs[i].spec_is_retryable());
        }
    }
    assert(seq![Input::Key(key)] + failures::<T>(errs) + later =~= seq![Input::Key(key)] + (body
        + (seq![last] + later)));
    lemma_run_unfold(s, Input::Key(key), body + (seq![last] + later));
    lemma_failtry_failures::<T>(s1, errs.drop_last());
    lemma_run_append(s1, body, seq![last] + later);
    let s2 = run(s1, body).state;
    lemma_run_unfold(s2, last, later);
    law_ended_call_is_inert(ended(s2), later);
}

/// `Failtry` with a connection that fails `errs.len()` times, no more often
/// than there are retries, and then replies: the call ends with that reply,
/// and the connection is invoked exactly `errs.len() + 1` times.
pub proof fn law_failtry_returns_first_success<T>(
    key: Seq<char>,
    retry: nat,
    errs: Seq<CallError>,
    reply: T,
    later: Seq<Input<T>>,
)
    requires
        key.len() > 0,
        errs.len() <= retry,
        all_retryable(errs),
    ensures
        ({
            let inputs = seq![Input::Key(key)] + failures::<T>(errs) + seq![
                Input::Outcome(Slot::Primary, Ok(reply)),
            ] + later;
            let r = run::<T>(initial(FailMode::Failtry, false, retry), inputs);
            r.attempts == errs.len() + 1 && r.reselections == 0 && r.result == Some(
                Ok::<T, CallError>(reply),
            )
        }),
{
    let s = initial(FailMode::Failtry, false, retry);
    let s1 = step(s, Input::<T>::Key(key)).0;
    let success = Input::<T>::Outcome(Slot::Primary, Ok(reply));
    let body = failures::<T>(errs);
    assert(seq![Input::Key(key)] + body + seq![success] + later =~= seq![Input::Key(key)] + (body
        + (seq![success] + later)));
    lemma_run_unfold(s, Input::Key(key), body + (seq![success] + later));
    lemma_failtry_failures::<T>(s1, errs);
    lemma_run_append(s1, body, seq![success] + later);
    let s2 = run(s1, body).state;
    lemma_run_unfold(s2, success, later);
    law_ended_call_is_inert(ended(s2), later);
}

/// The events of a `Failover` call whose attempts fail one after the other:
/// each failure is followed by the next key from the selector.
pub open spec fn failover_rounds<T>(errs: Seq<CallError>, keys: Seq<Seq<char>>) -> Seq<Input<T>>
    decreases errs.len(),
{
    if errs.len() == 0 || keys.len() == 0 {
        Seq::empty()
    } else {
        seq![Input::Outcome(Slot::Primary, Err(errs.first())), Input::Key(keys.first())]
            + failover_rounds(errs.drop_first(), keys.drop_first())
    }
}

/// `Failover`, from the first attempt on: each failure moves the call to
/// the next key, as long as that key is fresh and retries are left.
proof fn lemma_failover_rounds<T>(s: CallModel, errs: Seq<CallError>, keys: Seq<Seq<char>>)
    requires
        s.phase is Single,
        s.mode == FailMode::Failover,
        !s.oneway,
        errs.len() == keys.len(),
        keys.len() <= s.retries_left,
        all_retryable(errs),
        distinct_servers(s.tried + keys),
    ensures
        run(s, failover_rounds::<T>(errs, keys)) == (Run::<T> {
            state: CallModel {
                retries_left: (s.retries_left - keys.len()) as nat,
                tried: s.tried + keys,
                ..s
            },
            attempts: keys.len(),
            reselections: keys.len(),
            result: None,
        }),
    decreases errs.len(),
{
    if errs.len() == 0 {
        assert(s.tried + keys =~= s.tried);
    } else {
        let all = s.tried + keys;
        assert(errs[0].spec_is_retryable());
        assert(all_retryable(errs.drop_first())) by {
            assert forall|i: int| 0 <= i < errs.drop_first().len() implies (
            #[trigger] errs.drop_first()[i]).spec_is_retryable() by {
                assert(errs[i + 1].spec_is_retryable());
            }
        }
        let failure = Input::<T>::Outcome(Slot::Primary, Err(errs.first()));
        let key = Input::<T>::Key(keys.first());
        let rest = failover_rounds::<T>(errs.drop_first(), keys.drop_first());
        assert(failover_rounds::<T>(errs, keys) =~= seq![failure] + (seq![key] + rest));
        lemma_run_unfold(s, failure, seq![key] + rest);
        let s1 = step(s, failure).0;
        lemma_run_unfold(s1, key, rest);
        assert(is_fresh_key(s.tried, keys.first())) by {
            assert(all[s.tried.len() as int] == keys.first());
            assert forall|i: int| 0 <= i < s.tried.len() implies s.tried[i] != keys.first() by {
                assert(all[i] == s.tried[i]);
            }
        }
        let s2 = step(s1, key).0;
        assert(s2.tried + keys.drop_first() =~= all);
        lemma_failover_rounds::<T>(s2, errs.drop_first(), keys.drop_first());
    }
}

/// `Failover` over servers that fail one after the other until one replies:
/// with no more failures than retries, and a selector that offers a new
/// server after each, every server is tried once, in the order offered, and
/// the call ends with the reply.
pub proof fn law_failover_reaches_first_success<T>(
    first: Seq<char>,
    retry: nat,
    errs: Seq<CallError>,
    keys: Seq<Seq<char>>,
    reply: T,
    later: Seq<Input<T>>,
)
    requires
        errs.len() == keys.len(),
        keys.len() <= retry,
        all_retryable(errs),
        distinct_servers(seq![first] + keys),
    ensures
        ({
            let inputs = seq![Input::Key(first)] + failover_rounds::<T>(errs, keys) + seq![
                Input::Outcome(Slot::Primary, Ok(reply)),
            ] + later;
            let r = run::<T>(initial(FailMode::Failover, false, retry), inputs);
            &&& r.attempts == keys.len() + 1
            &&& r.reselections == keys.len()
            &&& r.result == Some(Ok::<T, CallError>(reply))
            &&& r.state.tried == seq![first] + keys
        }),
{
    let s = initial(FailMode::Failover, false, retry);
    let s1 = step(s, Input::<T>::Key(first)).0;
    let success = Input::<T>::Outcome(Slot::Primary, Ok(reply));
    let body = failover_rounds::<T>(errs, keys);
    assert((seq![first] + keys)[0] == first);
    assert(seq![Input::Key(first)] + body + seq![success] + later =~= seq![Input::Key(first)] + (
    body + (seq![success] + later)));
    lemma_run_unfold(s, Input::Key(first), body + (seq![success] + later));
    lemma_failover_rounds::<T>(s1, errs, keys);
    lemma_run_append(s1, body, seq![success] + later);
    let s2 = run(s1, body).state;
    lemma_run_unfold(s2, success, later);
    law_ended_call_is_inert(ended(s2), later);
}

/// `Failover` stops where the selector has no further server: when the key
/// offered after a failure is empty or was tried before, the call ends with
/// the error of the last attempt, and no further attempt is issued.
pub proof fn law_failover_stops_without_fresh_key<T>(
    s: CallModel,
    e: CallError,
    key: Seq<char>,
    later: Seq<Input<T>>,
)
    requires
        s.phase is Single,
        s.mode == FailMode::Failover,
        !s.oneway,
        !is_fresh_key(s.tried, key),
    ensures
        ({
            let inputs = seq![Input::Outcome(Slot::Primary, Err(e)), Input::Key(key)] + later;
            let r = run::<T>(s, inputs);
            r.attempts == 0 && r.result == Some(Err::<T, CallError>(e))
        }),
{
    let failure = Input::<T>::Outcome(Slot::Primary, Err(e));
    assert(seq![failure, Input::Key(key)] + later =~= seq![failure] + (seq![Input::Key(key)]
        + later));
    lemma_run_unfold(s, failure, seq![Input::Key(key)] + later);
    let s1 = step(s, failure).0;
    if s.retries_left > 0 {
        lemma_run_unfold(s1, Input::Key(key), later);
        law_ended_call_is_inert(ended(s1), later);
    } else {
        law_ended_call_is_inert(ended(s), seq![Input::Key(key)] + later);
    }
}

/// The servers a call has tried are pairwise different and none is the
/// empty key, whatever events arrive.
pub proof fn law_tried_servers_stay_distinct<T>(s: CallModel, inputs: Seq<Input<T>>)
    requires
        distinct_servers(s.tried),
        s.phase is Start ==> s.tried.len() == 0,
    ensures
        distinct_servers(run(s, inputs).state.tried),
    decreases inputs.len(),
{
    if inputs.len() > 0 {
        let next = step(s, inputs.first()).0;
        assert(distinct_servers(next.tried)) by {
            if next.tried != s.tried {
                let key = inputs.first()->Key_0;
                if s.phase is Start {
                    assert(next.tried =~= seq![key]);
                } else {
                    assert(next.tried =~= s.tried.push(key));
                    assert(is_fresh_key(s.tried, key));
                    assert forall|i: int, j: int| 0 <= i < j < next.tried.len() implies next.tried[i]
                        != next.tried[j] by {
                        if j == s.tried.len() {
                            assert(s.tried.contains(s.tried[i]));
                        }
                    }
                }
            }
        }
        law_tried_servers_stay_distinct(next, inputs.drop_first());
    }
}

/// `Failbackup` with a primary server that does not answer in time and a
/// backup that replies: after the trigger, the call is issued on the second
/// server as well, and the backup's reply ends the call.
pub proof fn law_failbackup_returns_backup_reply<T>(
    primary: Seq<char>,
    backup: Seq<char>,
    retry: nat,
    reply: T,
    later: Seq<Input<T>>,
)
    requires
        primary.len() > 0,
        backup.len() > 0,
        primary != backup,
    ensures
        ({
            let inputs = seq![
                Input::Key(primary),
                Input::BackupDue,
                Input::Key(backup),
                Input::Outcome(Slot::Backup, Ok(reply)),
            ] + later;
            let r = run::<T>(initial(FailMode::Failbackup, false, retry), inputs);
            &&& r.attempts == 2
            &&& r.reselections == 1
            &&& r.result == Some(Ok::<T, CallError>(reply))
            &&& r.state.tried == seq![primary, backup]
        }),
{
    let s = initial(FailMode::Failbackup, false, retry);
    let success = Input::<T>::Outcome(Slot::Backup, Ok(reply));
    let i3 = seq![success] + later;
    let i2 = seq![Input::Key(backup)] + i3;
    let i1 = seq![Input::BackupDue] + i2;
    assert(seq![Input::Key(primary), Input::BackupDue, Input::Key(backup), success] + later
        =~= seq![Input::Key(primary)] + i1);
    lemma_run_unfold(s, Input::Key(primary), i1);
    let s1 = step(s, Input::<T>::Key(primary)).0;
    lemma_run_unfold(s1, Input::BackupDue, i2);
    let s2 = step(s1, Input::<T>::BackupDue).0;
    assert(s2.tried =~= seq![primary]);
    assert(is_fresh_key(s2.tried, backup)) by {
        assert forall|i: int| 0 <= i < s2.tried.len() implies s2.tried[i] != backup by {}
    }
    lemma_run_unfold(s2, Input::Key(backup), i3);
    let s3 = step(s2, Input::<T>::Key(backup)).0;
    assert(s3.tried =~= seq![primary, backup]);
    lemma_run_unfold(s3, success, later);
    law_ended_call_is_inert(ended(s3), later);
}

/// `Failbackup` with two attempts racing: the first reply wins; where one
/// attempt fails with an error of its connection the call waits for the
/// other; and where both fail the call ends with the error of the one that
/// finished last.
pub proof fn law_failbackup_race<T>(
    s: CallModel,
    slot: Slot,
    e: CallError,
    outcome: Result<T, CallError>,
    later: Seq<Input<T>>,
)
    requires
        s.phase is Racing,
        e.spec_is_retryable(),
    ensures
        outcome is Ok ==> run(s, seq![Input::Outcome(slot, outcome)] + later).result == Some(
            outcome,
        ),
        ({
            let inputs = seq![
                Input::Outcome(slot, Err(e)),
                Input::Outcome(other_slot(slot), outcome),
            ] + later;
            let r = run::<T>(s, inputs);
            r.attempts == 0 && r.reselections == 0 && r.result == Some(outcome)
        }),
{
    let first = Input::<T>::Outcome(slot, Err(e));
    let second = Input::<T>::Outcome(other_slot(slot), outcome);
    if outcome is Ok {
        lemma_run_unfold(s, Input::Outcome(slot, outcome), later);
        law_ended_call_is_inert(ended(s), later);
    }
    assert(seq![first, second] + later =~= seq![first] + (seq![second] + later));
    lemma_run_unfold(s, first, seq![second] + later);
    let s1 = step(s, first).0;
    lemma_run_unfold(s1, second, later);
    law_ended_call_is_inert(ended(s1), later);
}

/// `Failbackup` behaves as `Failfast` where the selector has no second
/// server: when the key offered at the trigger is empty or is the primary
/// server again, the outcome of the primary attempt ends the call, reply or
/// error, and no second attempt is issued.
pub proof fn law_failbackup_without_second_server<T>(
    primary: Seq<char>,
    offered: Seq<char>,
    retry: nat,
    outcome: Result<T, CallError>,
    later: Seq<Input<T>>,
)
    requires
        primary.len() > 0,
        offered.len() == 0 || offered == primary,
    ensures
        ({
            let inputs = seq![
                Input::Key(primary),
                Input::BackupDue,
                Input::Key(offered),
                Input::Outcome(Slot::Primary, outcome),
            ] + later;
            let r = run::<T>(initial(FailMode::Failbackup, false, retry), inputs);
            r.attempts == 1 && r.result == Some(outcome)
        }),
{
    let s = initial(FailMode::Failbackup, false, retry);
    let last = Input::<T>::Outcome(Slot::Primary, outcome);
    let i3 = seq![last] + later;
    let i2 = seq![Input::Key(offered)] + i3;
    let i1 = seq![Input::BackupDue] + i2;
    assert(seq![Input::Key(primary), Input::BackupDue, Input::Key(offered), last] + later
        =~= seq![Input::Key(primary)] + i1);
    lemma_run_unfold(s, Input::Key(primary), i1);
    let s1 = step(s, Input::<T>::Key(primary)).0;
    lemma_run_unfold(s1, Input::BackupDue, i2);
    let s2 = step(s1, Input::<T>::BackupDue).0;
    assert(s2.tried =~= seq![primary]);
    assert(s2.tried[0] == primary);
    lemma_run_unfold(s2, Input::Key(offered), i3);
    let s3 = step(s2, Input::<T>::Key(offered)).0;
    lemma_run_unfold(s3, last, later);
    law_ended_call_is_inert(ended(s3), later);
}

} // verus!

//! The failure policy of one call, as a state machine.
//!
//! A call starts without a server. Each event (a key from the selector, the
//! outcome of an attempt, the backup trigger) moves it to its next state and
//! yields the action to perform. The machine performs nothing itself: the
//! same transitions serve a caller that blocks and one that chains
//! continuations.

use vstd::prelude::*;
use crate::error::CallError;
use crate::modes::FailMode;

verus! {

/// Which of a call's two lines of attempts an event belongs to. Every call
/// has a primary line; only `Failbackup` ever opens the backup line.
#[derive(Debug, Copy, Clone, PartialEq, Eq, Structural)]
pub enum Slot {
    Primary,
    Backup,
}

/// Where a call stands.
#[derive(Debug)]
pub enum Phase {
    /// No server has been selected yet.
    Start,
    /// One attempt is in flight on the primary line and no backup was asked
    /// for.
    Single,
    /// `Failover`: the last attempt failed with the held error and another
    /// key is awaited.
    Reselecting(CallError),
    /// `Failbackup`: the key of a backup server is awaited. The primary
    /// attempt is still in flight (`None`) or has failed with the held
    /// error.
    BackupWanted(Option<CallError>),
    /// `Failbackup`: the primary and the backup attempt are both in flight.
    Racing,
    /// Exactly one attempt is in flight, on the given line, and its outcome
    /// ends the call.
    Remaining(Slot),
    /// The call has ended, or was abandoned.
    Done,
}

/// What the caller of the machine has to do next.
#[derive(Debug)]
pub enum Action<T> {
    /// Ask the selector for a key and report it.
    Select,
    /// Issue the call on the most recently accepted key, on the given line.
    /// With `watch` set, also arm the backup trigger.
    Attempt { slot: Slot, watch: bool },
    /// Nothing to do until the next event.
    Idle,
    /// The call has ended with this result.
    Done(Result<T, CallError>),
}

/// The mathematical state of a call.
pub struct CallModel {
    pub mode: FailMode,
    pub oneway: bool,
    /// How many further attempts `Failtry` or `Failover` may still issue.
    pub retries_left: nat,
    /// The keys on which an attempt was issued, oldest first, each once.
    pub tried: Seq<Seq<char>>,
    pub phase: Phase,
}

/// An event, for stating what a whole run of the machine does.
pub enum Input<T> {
    Key(Seq<char>),
    Outcome(Slot, Result<T, CallError>),
    BackupDue,
}

/// The line that is not `slot`.
pub open spec fn other_slot(slot: Slot) -> Slot {
    match slot {
        Slot::Primary => Slot::Backup,
        Slot::Backup => Slot::Primary,
    }
}

/// Whether a key can open a new attempt: it names a server, and one that
/// was not tried before.
pub open spec fn is_fresh_key(tried: Seq<Seq<char>>, key: Seq<char>) -> bool {
    key.len() > 0 && !tried.contains(key)
}

/// The state of a call that has not begun.
pub open spec fn initial(mode: FailMode, oneway: bool, retry: nat) -> CallModel {
    CallModel { mode, oneway, retries_left: retry, tried: Seq::empty(), phase: Phase::Start }
}

/// The state after the call has ended.
pub open spec fn ended(s: CallModel) -> CallModel {
    CallModel { phase: Phase::Done, ..s }
}

/// The transition on a key from the selector.
///
/// The first key opens the primary attempt; an empty one ends the call with
/// `ServerNotFound`. A key awaited after a failure opens a further attempt
/// if it is fresh; otherwise the call ends with the held error, or, where
/// the primary attempt is still in flight, goes on with that attempt alone.
pub open spec fn key_step<T>(s: CallModel, key: Seq<char>) -> (CallModel, Action<T>) {
    match s.phase {
        Phase::Start => {
            if key.len() == 0 {
                (ended(s), Action::Done(Err(CallError::ServerNotFound)))
            } else {
                (
                    CallModel { tried: seq![key], phase: Phase::Single, ..s },
                    Action::Attempt {
                        slot: Slot::Primary,
                        watch: s.mode == FailMode::Failbackup && !s.oneway,
                    },
                )
            }
        },
        Phase::Reselecting(e) => {
            if is_fresh_key(s.tried, key) {
                (
                    CallModel { tried: s.tried.push(key), phase: Phase::Single, ..s },
                    Action::Attempt { slot: Slot::Primary, watch: false },
                )
            } else {
                (ended(s), Action::Done(Err(e)))
            }
        },
        Phase::BackupWanted(None) => {
            if is_fresh_key(s.tried, key) {
                (
                    CallModel { tried: s.tried.push(key), phase: Phase::Racing, ..s },
                    Action::Attempt { slot: Slot::Backup, watch: false },
                )
            } else {
                (CallModel { phase: Phase::Remaining(Slot::Primary), ..s }, Action::Idle)
            }
        },
        Phase::BackupWanted(Some(e)) => {
            if is_fresh_key(s.tried, key) {
                (
                    CallModel {
                        tried: s.tried.push(key),
                        phase: Phase::Remaining(Slot::Backup),
                        ..s
                    },
                    Action::Attempt { slot: Slot::Backup, watch: false },
                )
            } else {
                (ended(s), Action::Done(Err(e)))
            }
        },
        _ => (s, Action::Idle),
    }
}

/// The transition on the failure of the only attempt in flight, in a call
/// that has not asked for a backup.
///
/// A one-way call and `Failfast` end with the error. `Failtry` issues the
/// attempt again while retries are left, `Failover` asks for another key
/// while retries are left, and each spends one retry on it. `Failbackup`
/// asks for the key of a backup server.
pub open spec fn failure_step<T>(s: CallModel, e: CallError) -> (CallModel, Action<T>) {
    if s.oneway {
        (ended(s), Action::Done(Err(e)))
    } else {
        match s.mode {
            FailMode::Failfast => (ended(s), Action::Done(Err(e))),
            FailMode::Failtry => {
                if s.retries_left > 0 {
                    (
                        CallModel { retries_left: (s.retries_left - 1) as nat, ..s },
                        Action::Attempt { slot: Slot::Primary, watch: false },
                    )
                } else {
                    (ended(s), Action::Done(Err(e)))
                }
            },
            FailMode::Failover => {
                if s.retries_left > 0 {
                    (
                        CallModel {
                            retries_left: (s.retries_left - 1) as nat,
                            phase: Phase::Reselecting(e),
                            ..s
                        },
                        Action::Select,
                    )
                } else {
                    (ended(s), Action::Done(Err(e)))
                }
            },
            FailMode::Failbackup => (
                CallModel { phase: Phase::BackupWanted(Some(e)), ..s },
                Action::Select,
            ),
        }
    }
}

/// The transition on the outcome of an attempt.
///
/// A reply from an attempt in flight ends the call with it, and so does an
/// error that may not be retried. Any other failure is judged by
/// [`failure_step`] where it is the only attempt and no backup was asked
/// for; it ends the call where it is the last attempt in flight; and it
/// leaves the call to the other attempt where two are racing. An outcome
/// for a line with no attempt in flight changes nothing.
pub open spec fn outcome_step<T>(s: CallModel, slot: Slot, outcome: Result<T, CallError>) -> (
    CallModel,
    Action<T>,
) {
    let in_flight = match s.phase {
        Phase::Single => slot == Slot::Primary,
        Phase::BackupWanted(None) => slot == Slot::Primary,
        Phase::Racing => true,
        Phase::Remaining(only) => slot == only,
        _ => false,
    };
    if !in_flight {
        (s, Action::Idle)
    } else {
        match outcome {
            Ok(reply) => (ended(s), Action::Done(Ok(reply))),
            Err(e) => if !e.spec_is_retryable() {
                (ended(s), Action::Done(Err(e)))
            } else {
                match s.phase {
                    Phase::Single => failure_step(s, e),
                    Phase::BackupWanted(None) => (
                        CallModel { phase: Phase::BackupWanted(Some(e)), ..s },
                        Action::Idle,
                    ),
                    Phase::Racing => (
                        CallModel { phase: Phase::Remaining(other_slot(slot)), ..s },
                        Action::Idle,
                    ),
                    _ => (ended(s), Action::Done(Err(e))),
                }
            },
        }
    }
}

/// The transition when the backup trigger fires: a `Failbackup` call that
/// awaits a reply on its only attempt asks for the key of a backup server.
/// In every other state the trigger changes nothing.
pub open spec fn backup_due_step<T>(s: CallModel) -> (CallModel, Action<T>) {
    if s.phase is Single && s.mode == FailMode::Failbackup && !s.oneway {
        (CallModel { phase: Phase::BackupWanted(None), ..s }, Action::Select)
    } else {
        (s, Action::Idle)
    }
}

/// The transition on any event.
pub open spec fn step<T>(s: CallModel, input: Input<T>) -> (CallModel, Action<T>) {
    match input {
        Input::Key(key) => key_step(s, key),
        Input::Outcome(slot, outcome) => outcome_step(s, slot, outcome),
        Input::BackupDue => backup_due_step(s),
    }
}

/// The keys of a list as character sequences.
pub open spec fn key_views(keys: Seq<String>) -> Seq<Seq<char>> {
    keys.map_values(|k: String| k@)
}

/// The state of one call in progress.
#[derive(Debug)]
pub struct CallState {
    mode: FailMode,
    oneway: bool,
    retries_left: u8,
    tried: Vec<String>,
    phase: Phase,
}

impl View for CallState {
    type V = CallModel;

    closed spec fn view(&self) -> CallModel {
        CallModel {
            mode: self.mode,
            oneway: self.oneway,
            retries_left: self.retries_left as nat,
            tried: key_views(self.tried@),
            phase: self.phase,
        }
    }
}

/// Whether `key` is among `tried`.
fn key_known(tried: &Vec<String>, key: &String) -> (found: bool)
    ensures
        found == key_views(tried@).contains(key@),
{
    let mut i: usize = 0;
    while i < tried.len()
        invariant
            i <= tried.len(),
            forall|j: int| 0 <= j < i ==> key_views(tried@)[j] != key@,
        decreases tried.len() - i,
    {
        if tried[i] == *key {
            assert(key_views(tried@)[i as int] == key@);
            return true;
        }
        i += 1;
    }
    false
}

/// Whether `key` names a server that was not tried before.
fn key_is_fresh(tried: &Vec<String>, key: &String) -> (fresh: bool)
    ensures
        fresh == is_fresh_key(key_views(tried@), key@),
{
    !key.as_str().is_empty() && !key_known(tried, key)
}

/// `tried` with `key` added at its end.
fn with_key(tried: Vec<String>, key: String) -> (longer: Vec<String>)
    ensures
        key_views(longer@) == key_views(tried@).push(key@),
        longer@.len() == tried@.len() + 1,
{
    let mut longer = tried;
    longer.push(key);
    assert(key_views(longer@) =~= key_views(tried@).push(key@));
    longer
}

impl CallState {
    /// While an attempt is in flight on the primary line, the call has a
    /// server.
    #[verifier::type_invariant]
    spec fn has_server_in_flight(&self) -> bool {
        self.phase is Single ==> self.tried@.len() > 0
    }

    /// A call that has not begun, under the given mode and with `retry`
    /// further attempts allowed.
    pub fn new(mode: FailMode, oneway: bool, retry: u8) -> (s: CallState)
        ensures
            s@ == initial(mode, oneway, retry as nat),
    {
        let s = CallState { mode, oneway, retries_left: retry, tried: Vec::new(), phase: Phase::Start };
        assert(s@.tried =~= Seq::empty());
        s
    }

    /// Takes a key from the selector.
    pub fn on_key<T>(self, key: String) -> (r: (CallState, Action<T>))
        ensures
            (r.0@, r.1) == key_step::<T>(self@, key@),
    {
        proof {
            use_type_invariant(&self);
        }
        let CallState { mode, oneway, retries_left, tried, phase } = self;
        match phase {
            Phase::Start => {
                if key.as_str().is_empty() {
                    (
                        CallState { mode, oneway, retries_left, tried, phase: Phase::Done },
                        Action::Done(Err(CallError::ServerNotFound)),
                    )
                } else {
                    let mut first: Vec<String> = Vec::new();
                    first.push(key);
                    assert(key_views(first@) =~= seq![key@]);
                    let watch = mode == FailMode::Failbackup && !oneway;
                    (
                        CallState { mode, oneway, retries_left, tried: first, phase: Phase::Single },
                        Action::Attempt { slot: Slot::Primary, watch },
                    )
                }
            },
            Phase::Reselecting(e) => {
                if key_is_fresh(&tried, &key) {
                    let tried = with_key(tried, key);
                    (
                        CallState { mode, oneway, retries_left, tried, phase: Phase::Single },
                        Action::Attempt { slot: Slot::Primary, watch: false },
                    )
                } else {
                    (
                        CallState { mode, oneway, retries_left, tried, phase: Phase::Done },
                        Action::Done(Err(e)),
                    )
                }
            },
            Phase::BackupWanted(None) => {
                if key_is_fresh(&tried, &key) {
                    let tried = with_key(tried, key);
                    (
                        CallState { mode, oneway, retries_left, tried, phase: Phase::Racing },
                        Action::Attempt { slot: Slot::Backup, watch: false },
                    )
                } else {
                    (
                        CallState {
                            mode,
                            oneway,
                            retries_left,
                            tried,
                            phase: Phase::Remaining(Slot::Primary),
                        },
                        Action::Idle,
                    )
                }
            },
            Phase::BackupWanted(Some(e)) => {
                if key_is_fresh(&tried, &key) {
                    let tried = with_key(tried, key);
                    (
                        CallState {
                            mode,
                            oneway,
                            retries_left,
                            tried,
                            phase: Phase::Remaining(Slot::Backup),
                        },
                        Action::Attempt { slot: Slot::Backup, watch: false },
                    )
                } else {
                    (
                        CallState { mode, oneway, retries_left, tried, phase: Phase::Done },
                        Action::Done(Err(e)),
                    )
                }
            },
            other => (CallState { mode, oneway, retries_left, tried, phase: other }, Action::Idle),
        }
    }

    /// Judges the failure of the only attempt of a call that has not asked
    /// for a backup.
    fn on_failure<T>(self, e: CallError) -> (r: (CallState, Action<T>))
        requires
            self@.phase is Single,
        ensures
            (r.0@, r.1) == failure_step::<T>(self@, e),
    {
        proof {
            use_type_invariant(&self);
        }
        let CallState { mode, oneway, retries_left, tried, phase } = self;
        if oneway {
            return (
                CallState { mode, oneway, retries_left, tried, phase: Phase::Done },
                Action::Done(Err(e)),
            );
        }
        match mode {
            FailMode::Failfast => (
                CallState { mode, oneway, retries_left, tried, phase: Phase::Done },
                Action::Done(Err(e)),
            ),
            FailMode::Failtry => {
                if retries_left > 0 {
                    (
                        CallState { mode, oneway, retries_left: retries_left - 1, tried, phase },
                        Action::Attempt { slot: Slot::Primary, watch: false },
                    )
                } else {
                    (
                        CallState { mode, oneway, retries_left, tried, phase: Phase::Done },
                        Action::Done(Err(e)),
                    )
                }
            },
            FailMode::Failover => {
                if retries_left > 0 {
                    (
                        CallState {
                            mode,
                            oneway,
                            retries_left: retries_left - 1,
                            tried,
                            phase: Phase::Reselecting(e),
                        },
                        Action::Select,
                    )
                } else {
                    (
                        CallState { mode, oneway, retries_left, tried, phase: Phase::Done },
                        Action::Done(Err(e)),
                    )
                }
            },
            FailMode::Failbackup => (
                CallState { mode, oneway, retries_left, tried, phase: Phase::BackupWanted(Some(e)) },
                Action::Select,
            ),
        }
    }

    /// Takes the outcome of the attempt on the given line.
    pub fn on_outcome<T>(self, slot: Slot, outcome: Result<T, CallError>) -> (r: (
        CallState,
        Action<T>,
    ))
        ensures
            (r.0@, r.1) == outcome_step(self@, slot, outcome),
            r.1 is Attempt ==> r.0@.tried.len() > 0,
    {
        proof {
            use_type_invariant(&self);
        }
        let in_flight = match &self.phase {
            Phase::Single => slot == Slot::Primary,
            Phase::BackupWanted(None) => slot == Slot::Primary,
            Phase::Racing => true,
            Phase::Remaining(only) => slot == *only,
            _ => false,
        };
        if !in_flight {
            return (self, Action::Idle);
        }
        match outcome {
            Ok(reply) => {
                let CallState { mode, oneway, retries_left, tried, phase } = self;
                (
                    CallState { mode, oneway, retries_left, tried, phase: Phase::Done },
                    Action::Done(Ok(reply)),
                )
            },
            Err(e) => {
                if !e.is_retryable() {
                    let CallState { mode, oneway, retries_left, tried, phase } = self;
                    return (
                        CallState { mode, oneway, retries_left, tried, phase: Phase::Done },
                        Action::Done(Err(e)),
                    );
                }
                if let Phase::Single = &self.phase {
                    return self.on_failure(e);
                }
                let CallState { mode, oneway, retries_left, tried, phase } = self;
                match phase {
                    Phase::BackupWanted(None) => (
                        CallState {
                            mode,
                            oneway,
                            retries_left,
                            tried,
                            phase: Phase::BackupWanted(Some(e)),
                        },
                        Action::Idle,
                    ),
                    Phase::Racing => {
                        let left = match slot {
                            Slot::Primary => Slot::Backup,
                            Slot::Backup => Slot::Primary,
                        };
                        (
                            CallState {
                                mode,
                                oneway,
                                retries_left,
                                tried,
                                phase: Phase::Remaining(left),
                            },
                            Action::Idle,
                        )
                    },
                    _ => (
                        CallState { mode, oneway, retries_left, tried, phase: Phase::Done },
                        Action::Done(Err(e)),
                    ),
                }
            },
        }
    }

    /// Takes the firing of the backup trigger.
    pub fn on_backup_due<T>(self) -> (r: (CallState, Action<T>))
        ensures
            (r.0@, r.1) == backup_due_step::<T>(self@),
    {
        let wanted = match &self.phase {
            Phase::Single => self.mode == FailMode::Failbackup && !self.oneway,
            _ => false,
        };
        if wanted {
            let CallState { mode, oneway, retries_left, tried, phase } = self;
            (
                CallState { mode, oneway, retries_left, tried, phase: Phase::BackupWanted(None) },
                Action::Select,
            )
        } else {
            (self, Action::Idle)
        }
    }

    /// Abandons the call: no event will yield a further attempt.
    pub fn cancel(self) -> (s: CallState)
        ensures
            s@ == ended(self@),
    {
        let CallState { mode, oneway, retries_left, tried, phase } = self;
        CallState { mode, oneway, retries_left, tried, phase: Phase::Done }
    }

    /// The key on which the most recent attempt was issued.
    pub fn latest_key(&self) -> (key: Option<&String>)
        ensures
            match key {
                Some(k) => self@.tried.len() > 0 && k@ == self@.tried.last(),
                None => self@.tried.len() == 0,
            },
    {
        let n: usize = self.tried.len();
        if n == 0 {
            None
        } else {
            Some(&self.tried[n - 1])
        }
    }

    /// The keys on which an attempt was issued, oldest first.
    pub fn tried(&self) -> (keys: &Vec<String>)
        ensures
            key_views(keys@) == self@.tried,
    {
        &self.tried
    }

    /// How many further attempts `Failtry` or `Failover` may still issue.
    pub fn retries_left(&self) -> (n: u8)
        ensures
            n == self@.retries_left,
    {
        self.retries_left
    }

    /// Whether the call has ended or was abandoned.
    pub fn is_done(&self) -> (done: bool)
        ensures
            done == (self@.phase is Done),
    {
        match &self.phase {
            Phase::Done => true,
            _ => false,
        }
    }
}

} // verus!

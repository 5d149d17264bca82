//! The dispatcher: a selector, a connection cache and a failure mode, joined
//! to drive calls.
//!
//! The dispatcher decides and remembers; it performs no I/O. For each call
//! it hands out directives (create a connection, invoke one, ask again) and
//! takes back what came of them, until it hands out the call's result.

use vstd::prelude::*;
use crate::cache::{stored, ConnectionCache};
use crate::error::CallError;
use crate::modes::FailMode;
use crate::policy::{
    initial, key_step, outcome_step, backup_due_step, Action, CallModel, CallState, Slot,
};
use crate::server_key::{address_of, network_of, parse_server_key, Endpoint};

verus! {

/// A source of the servers that offer a service.
pub trait ServiceDiscovery {
    /// The known servers, each as a pair of service path and address.
    fn get_services() -> Vec<(String, String)>;

    /// Stops the discovery.
    fn close();
}

/// A strategy that picks a server for a call.
pub trait ClientSelector {
    /// What a call's arguments are to this selector.
    type Args: ?Sized;

    /// The key of the server to call, or the empty string where no server
    /// is available.
    fn select(&mut self, service_path: &String, service_method: &String, args: &Self::Args) -> String;
}

/// The settings of a dispatcher, copied to every connection it asks for.
#[derive(Debug, Copy, Clone, PartialEq, Eq, Structural)]
pub struct Opt {
    /// How many further attempts `Failtry` and `Failover` may make.
    pub retry: u8,
    /// How long creating a connection may take, in milliseconds.
    pub connect_timeout_ms: u64,
    /// How long a call on a connection may take, in milliseconds.
    pub call_timeout_ms: u64,
    /// How long `Failbackup` waits for the primary server before it calls a
    /// backup, in milliseconds.
    pub backup_latency_ms: u64,
}

/// What the driver of a call has to do next.
#[derive(Debug)]
pub enum Directive<T> {
    /// Ask the dispatcher to select again.
    Select,
    /// Create and start a connection to `endpoint` with the settings `opt`.
    /// On success register it under `key` and invoke it; on failure report
    /// the error as the outcome of the attempt on `slot`.
    Connect { key: String, endpoint: Endpoint, opt: Opt, slot: Slot, watch: bool },
    /// Invoke the cached connection of `key` and report the outcome of the
    /// attempt on `slot`.
    Invoke { key: String, slot: Slot, watch: bool },
    /// Nothing to do until the next event.
    Idle,
    /// The call has ended with this result.
    Done(Result<T, CallError>),
}

/// Whether `directive` carries out `action` for a call that has tried the
/// servers `tried`, against the connections in `cache`.
///
/// An attempt goes to the server tried last: it is an invocation where that
/// server has a connection, and else the creation of one, at the endpoint
/// the key names and with the dispatcher's settings. Every other action is
/// passed on as it is.
pub open spec fn directs<T, C>(
    directive: Directive<T>,
    action: Action<T>,
    tried: Seq<Seq<char>>,
    cache: Map<Seq<char>, C>,
    opt: Opt,
) -> bool {
    match action {
        Action::Select => directive is Select,
        Action::Idle => directive is Idle,
        Action::Done(result) => directive == Directive::Done(result),
        Action::Attempt { slot, watch } => {
            &&& tried.len() > 0
            &&& if cache.contains_key(tried.last()) {
                &&& directive is Invoke
                &&& directive->Invoke_key@ == tried.last()
                &&& directive->Invoke_slot == slot
                &&& directive->Invoke_watch == watch
            } else {
                &&& directive is Connect
                &&& directive->Connect_key@ == tried.last()
                &&& directive->Connect_endpoint.network@ == network_of(tried.last())
                &&& directive->Connect_endpoint.address@ == address_of(tried.last())
                &&& directive->Connect_opt == opt
                &&& directive->Connect_slot == slot
                &&& directive->Connect_watch == watch
            }
        },
    }
}

/// Whether `next` is what a call in state `call` comes to when the selector
/// offers `key`.
pub open spec fn accepted<T, C>(
    next: (CallState, Directive<T>),
    call: CallModel,
    key: Seq<char>,
    cache: Map<Seq<char>, C>,
    opt: Opt,
) -> bool {
    &&& next.0@ == key_step::<T>(call, key).0
    &&& directs(next.1, key_step::<T>(call, key).1, next.0@.tried, cache, opt)
}

/// The client-side dispatcher of calls.
pub struct XClient<S: ClientSelector, C> {
    pub opt: Opt,
    fail_mode: FailMode,
    clients: ConnectionCache<C>,
    selector: S,
}

impl<S: ClientSelector, C> XClient<S, C> {
    /// The failure mode that applies to every call.
    pub closed spec fn mode(&self) -> FailMode {
        self.fail_mode
    }

    /// The connections held, by server key.
    pub closed spec fn connections(&self) -> Map<Seq<char>, C> {
        self.clients@
    }

    /// The settings copied to every connection.
    pub closed spec fn settings(&self) -> Opt {
        self.opt
    }

    /// The selector in its current state.
    pub closed spec fn chooser(&self) -> S {
        self.selector
    }

    /// A dispatcher with the given failure mode, selector and settings, and
    /// no connection yet.
    pub fn new(fm: FailMode, s: S, opt: Opt) -> (client: Self)
        ensures
            client.mode() == fm,
            client.chooser() == s,
            client.settings() == opt,
            client.connections() == Map::<Seq<char>, C>::empty(),
    {
        XClient { fail_mode: fm, selector: s, clients: ConnectionCache::new(), opt }
    }

    /// The failure mode that applies to every call.
    pub fn fail_mode(&self) -> (fm: FailMode)
        ensures
            fm == self.mode(),
    {
        self.fail_mode
    }

    /// Turns an action of the call machine into a directive.
    fn direct<T>(&self, call: &CallState, action: Action<T>) -> (directive: Directive<T>)
        requires
            action is Attempt ==> call@.tried.len() > 0,
        ensures
            directs(directive, action, call@.tried, self.connections(), self.settings()),
    {
        match action {
            Action::Select => Directive::Select,
            Action::Idle => Directive::Idle,
            Action::Done(result) => Directive::Done(result),
            Action::Attempt { slot, watch } => {
                match call.latest_key() {
                    Some(latest) => {
                        let key = latest.clone();
                        if self.clients.contains(&key) {
                            Directive::Invoke { key, slot, watch }
                        } else {
                            let endpoint = parse_server_key(&key);
                            Directive::Connect { key, endpoint, opt: self.opt, slot, watch }
                        }
                    },
                    None => Directive::Idle,
                }
            },
        }
    }

    /// Takes a key that the selector offered for `call`.
    ///
    /// The call moves as the machine says for that key. Where the machine
    /// asks for an attempt, the directive is to invoke the server's cached
    /// connection, or to create one where it has none.
    pub fn accept_key<T>(&self, call: CallState, key: String) -> (next: (CallState, Directive<T>))
        ensures
            accepted(next, call@, key@, self.connections(), self.settings()),
    {
        let (call, action) = call.on_key::<T>(key);
        let directive = self.direct(&call, action);
        (call, directive)
    }

    /// Begins a call: asks the selector for a server and hands its key to
    /// a new call under the dispatcher's mode and retry count.
    ///
    /// Which key the selector offers is its own matter; whichever it is,
    /// the call goes as [`XClient::accept_key`] says for it. An empty key ends
    /// the call at once with `ServerNotFound`. No connection is added or
    /// removed.
    pub fn begin<T>(
        &mut self,
        service_path: &String,
        service_method: &String,
        is_oneway: bool,
        args: &S::Args,
    ) -> (next: (CallState, Directive<T>))
        ensures
            exists|key: Seq<char>|
                accepted(
                    next,
                    initial(old(self).mode(), is_oneway, old(self).settings().retry as nat),
                    key,
                    old(self).connections(),
                    old(self).settings(),
                ),
            final(self).connections() == old(self).connections(),
            final(self).mode() == old(self).mode(),
            final(self).settings() == old(self).settings(),
    {
        let call = CallState::new(self.fail_mode, is_oneway, self.opt.retry);
        let key = self.selector.select(service_path, service_method, args);
        let next = self.accept_key::<T>(call, key);
        assert(accepted(
            next,
            initial(old(self).mode(), is_oneway, old(self).settings().retry as nat),
            key@,
            old(self).connections(),
            old(self).settings(),
        ));
        next
    }

    /// Begins a call whose reply is awaited without blocking. Such a call
    /// is never one-way; in everything else it begins as [`XClient::begin`]
    /// says.
    pub fn begin_async<T>(
        &mut self,
        service_path: &String,
        service_method: &String,
        args: &S::Args,
    ) -> (next: (CallState, Directive<T>))
        ensures
            exists|key: Seq<char>|
                accepted(
                    next,
                    initial(old(self).mode(), false, old(self).settings().retry as nat),
                    key,
                    old(self).connections(),
                    old(self).settings(),
                ),
            final(self).connections() == old(self).connections(),
            final(self).mode() == old(self).mode(),
            final(self).settings() == old(self).settings(),
    {
        self.begin(service_path, service_method, false, args)
    }

    /// Selects again for a call that asked for it, and hands the call its key.
    pub fn reselect<T>(
        &mut self,
        call: CallState,
        service_path: &String,
        service_method: &String,
        args: &S::Args,
    ) -> (next: (CallState, Directive<T>))
        ensures
            exists|key: Seq<char>|
                accepted(next, call@, key, old(self).connections(), old(self).settings()),
            final(self).connections() == old(self).connections(),
            final(self).mode() == old(self).mode(),
            final(self).settings() == old(self).settings(),
    {
        let key = self.selector.select(service_path, service_method, args);
        let next = self.accept_key::<T>(call, key);
        assert(accepted(next, call@, key@, old(self).connections(), old(self).settings()));
        next
    }

    /// Takes the outcome of the attempt on `slot`: the reply, or the error
    /// of the call or of creating the connection.
    pub fn settle<T>(&self, call: CallState, slot: Slot, outcome: Result<T, CallError>) -> (next: (
        CallState,
        Directive<T>,
    ))
        ensures
            next.0@ == outcome_step(call@, slot, outcome).0,
            directs(
                next.1,
                outcome_step(call@, slot, outcome).1,
                next.0@.tried,
                self.connections(),
                self.settings(),
            ),
    {
        let (call, action) = call.on_outcome(slot, outcome);
        let directive = self.direct(&call, action);
        (call, directive)
    }

    /// Takes the firing of the backup trigger of `call`.
    pub fn backup_due<T>(&self, call: CallState) -> (next: (CallState, Directive<T>))
        ensures
            next.0@ == backup_due_step::<T>(call@).0,
            directs(
                next.1,
                backup_due_step::<T>(call@).1,
                next.0@.tried,
                self.connections(),
                self.settings(),
            ),
    {
        let (call, action) = call.on_backup_due::<T>();
        let directive = self.direct(&call, action);
        (call, directive)
    }

    /// Looks at a directive again, against the cache as it is now: a
    /// connection that was to be created is not created where the server
    /// has one by now, and is invoked instead. Every other directive stays
    /// as it is.
    pub fn recheck<T>(&self, directive: Directive<T>) -> (now: Directive<T>)
        ensures
            now == if directive is Connect && self.connections().contains_key(
                directive->Connect_key@,
            ) {
                Directive::Invoke {
                    key: directive->Connect_key,
                    slot: directive->Connect_slot,
                    watch: directive->Connect_watch,
                }
            } else {
                directive
            },
    {
        match directive {
            Directive::Connect { key, endpoint, opt, slot, watch } => {
                if self.clients.contains(&key) {
                    Directive::Invoke { key, slot, watch }
                } else {
                    Directive::Connect { key, endpoint, opt, slot, watch }
                }
            },
            other => other,
        }
    }

    /// Whether `key` has a connection. Where it has none, one is to be
    /// created before the server can be invoked.
    pub fn is_cached(&self, key: &String) -> (cached: bool)
        ensures
            cached == self.connections().contains_key(key@),
    {
        self.clients.contains(key)
    }

    /// Registers a started connection under `key`. A key that has a
    /// connection keeps it: the new one is handed back, and the cache stays
    /// as it is.
    pub fn register(&mut self, key: String, conn: C) -> (rejected: Option<C>)
        ensures
            final(self).connections() == stored(old(self).connections(), key@, conn),
            rejected == if old(self).connections().contains_key(key@) {
                Some(conn)
            } else {
                None
            },
            final(self).mode() == old(self).mode(),
            final(self).settings() == old(self).settings(),
            final(self).chooser() == old(self).chooser(),
    {
        self.clients.insert(key, conn)
    }

    /// Takes what came of creating and starting a connection for `key`.
    ///
    /// A started connection is registered, unless the server has one by
    /// now, and the directive is to invoke the server's connection; the
    /// call itself has not moved. A failure stores nothing, so that a later
    /// attempt can create the connection anew, and is the outcome of the
    /// attempt on `slot`, as a connection error.
    pub fn connected<T>(
        &mut self,
        call: CallState,
        key: String,
        slot: Slot,
        watch: bool,
        started: Result<C, rpcx_protocol::Error>,
    ) -> (next: (CallState, Directive<T>))
        ensures
            final(self).mode() == old(self).mode(),
            final(self).settings() == old(self).settings(),
            final(self).chooser() == old(self).chooser(),
            match started {
                Ok(conn) => {
                    &&& final(self).connections() == stored(old(self).connections(), key@, conn)
                    &&& next.0@ == call@
                    &&& next.1 is Invoke
                    &&& next.1->Invoke_key@ == key@
                    &&& next.1->Invoke_slot == slot
                    &&& next.1->Invoke_watch == watch
                },
                Err(e) => {
                    let failed = outcome_step::<T>(call@, slot, Err(CallError::Connection(e)));
                    &&& final(self).connections() == old(self).connections()
                    &&& next.0@ == failed.0
                    &&& directs(
                        next.1,
                        failed.1,
                        next.0@.tried,
                        old(self).connections(),
                        old(self).settings(),
                    )
                },
            },
    {
        match started {
            Ok(conn) => {
                let _ = self.clients.insert(key.clone(), conn);
                (call, Directive::Invoke { key, slot, watch })
            },
            Err(e) => self.settle(call, slot, Err(CallError::Connection(e))),
        }
    }

    /// The connection of `key`, or `ClientNotFound` where it has none.
    pub fn connection(&self, key: &String) -> (conn: Result<&C, CallError>)
        ensures
            match conn {
                Ok(c) => self.connections().contains_key(key@) && *c == self.connections()[key@],
                Err(e) => !self.connections().contains_key(key@) && e == CallError::ClientNotFound,
            },
    {
        match self.clients.get(key) {
            Some(conn) => Ok(conn),
            None => Err(CallError::ClientNotFound),
        }
    }
}

/// Where the selector offers no server, a call that begins ends at once
/// with `ServerNotFound`, under every mode and whether one-way or not, and
/// the driver is told to create or invoke nothing.
pub proof fn law_empty_key_is_server_not_found<T, C>(
    next: (CallState, Directive<T>),
    mode: FailMode,
    oneway: bool,
    retry: nat,
    cache: Map<Seq<char>, C>,
    opt: Opt,
)
    requires
        accepted(next, initial(mode, oneway, retry), Seq::empty(), cache, opt),
    ensures
        next.1 == Directive::<T>::Done(Err(CallError::ServerNotFound)),
        next.0@.phase is Done,
        next.0@.tried.len() == 0,
{
}

} // verus!

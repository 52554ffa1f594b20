use vstd::prelude::*;

use crate::bridge::{
    cancel_all, is_pending, respond, BridgeView, CommandFamily, DeliveryView, EventView,
    PendingTable, RawResponse, Slot, shutdown_events,
};
use crate::error::{CouchbaseError, STATUS_SUCCESS};

verus! {

/// The lifecycle of one engine instance; destruction is final.
#[derive(Debug, Clone, Copy, PartialEq, Eq, Structural)]
pub enum InstanceState {
    Created,
    Bootstrapping,
    Connected,
    ShuttingDown,
    Destroyed,
}

/// Where the I/O pump thread stands.
#[derive(Debug, Clone, Copy, PartialEq, Eq, Structural)]
pub enum PumpPhase {
    /// Idle until woken.
    Parked,
    /// Inside the engine's dispatch call.
    Dispatching,
    /// It saw the shutdown signal and left its loop.
    Stopped,
    /// The owner has joined it.
    Joined,
}

/// What the pump thread does after it wakes.
#[derive(Debug, Clone, Copy, PartialEq, Eq, Structural)]
pub enum PumpAction {
    /// Run the engine's dispatch call once, under the lock, then wake again.
    Dispatch,
    /// Park until the next wake.
    Park,
    /// Leave the loop: the thread ends and its owner may join it.
    Exit,
}

/// The parameters handed to the engine's bootstrap.
#[derive(Debug, Clone)]
pub struct ConnectParams {
    pub connection_string: String,
    pub user: String,
    pub password: String,
}

/// The instance wrapper's state: the engine's lifecycle, the arena of pending
/// operations, and the pump thread's wake and shutdown signals.
pub struct Instance {
    pub params: ConnectParams,
    pub state: InstanceState,
    pub table: PendingTable,
    /// A command was submitted since the pump last woke.
    pub wake: bool,
    /// The pump must leave its loop at its next wake.
    pub stop: bool,
    pub pump: PumpPhase,
}

pub struct InstanceView {
    pub state: InstanceState,
    pub bridge: BridgeView,
    pub wake: bool,
    pub stop: bool,
    pub pump: PumpPhase,
}

impl View for Instance {
    type V = InstanceView;

    open spec fn view(&self) -> InstanceView {
        InstanceView {
            state: self.state,
            bridge: self.table@,
            wake: self.wake,
            stop: self.stop,
            pump: self.pump,
        }
    }
}

/// The states an instance can be in: connected exactly until the pump is told to
/// stop; the pump stops or is joined only after that; and the engine is
/// destroyed only once the pump has been joined.
pub open spec fn valid(v: InstanceView) -> bool {
    &&& v.state == InstanceState::Connected || v.state == InstanceState::ShuttingDown || v.state
        == InstanceState::Destroyed
    &&& (v.state == InstanceState::Connected <==> !v.stop)
    &&& (v.pump == PumpPhase::Stopped || v.pump == PumpPhase::Joined) ==> v.stop
    &&& v.state == InstanceState::Destroyed ==> v.pump == PumpPhase::Joined
}

/// The state after the engine refuses to schedule the command of cookie `c`.
pub open spec fn refuse_view(v: InstanceView, c: int, status: u16) -> InstanceView {
    InstanceView { bridge: crate::bridge::refuse(v.bridge, c, status), ..v }
}

/// Commands reach the engine only while it is connected.
pub open spec fn accepts_commands(v: InstanceView) -> bool {
    v.state == InstanceState::Connected
}

/// The state after the callback for `c` fires with `r`.
pub open spec fn on_response_view(v: InstanceView, c: int, r: crate::bridge::ResponseView) -> InstanceView {
    InstanceView { bridge: respond(v.bridge, c, r), ..v }
}

/// The state after `shutdown`: a connected instance moves to shutting down,
/// signals its pump and wakes it, and resolves every pending operation with a
/// shutdown error. Any other instance is left alone.
pub open spec fn shutdown_view(v: InstanceView) -> InstanceView {
    if accepts_commands(v) {
        InstanceView {
            state: InstanceState::ShuttingDown,
            bridge: cancel_all(v.bridge),
            wake: true,
            stop: true,
            pump: v.pump,
        }
    } else {
        v
    }
}

/// What the pump does when it wakes in state `v`: the shutdown signal is read
/// first, then the pending wake.
pub open spec fn pump_action(v: InstanceView) -> PumpAction {
    if v.stop {
        PumpAction::Exit
    } else if v.wake {
        PumpAction::Dispatch
    } else {
        PumpAction::Park
    }
}

/// The state after the pump wakes in state `v`.
pub open spec fn pump_wake_view(v: InstanceView) -> InstanceView {
    match pump_action(v) {
        PumpAction::Exit => if v.pump == PumpPhase::Joined {
            v
        } else {
            InstanceView { pump: PumpPhase::Stopped, ..v }
        },
        PumpAction::Dispatch => InstanceView { wake: false, pump: PumpPhase::Dispatching, ..v },
        PumpAction::Park => InstanceView { pump: PumpPhase::Parked, ..v },
    }
}

/// The pump can be joined once it has left its loop.
pub open spec fn can_join(v: InstanceView) -> bool {
    v.pump == PumpPhase::Stopped
}

/// The engine handle may be destroyed only while shutting down and once the
/// pump thread has been joined.
pub open spec fn can_destroy(v: InstanceView) -> bool {
    v.state == InstanceState::ShuttingDown && v.pump == PumpPhase::Joined
}

/// What connecting yields from the status of enabling detailed error codes and
/// that of the bootstrap: the first failure, in that order.
pub open spec fn connect_outcome(control_status: u16, bootstrap_status: u16) -> Result<(), CouchbaseError> {
    if control_status != STATUS_SUCCESS {
        Err(CouchbaseError::ControlError(control_status))
    } else if bootstrap_status != STATUS_SUCCESS {
        Err(CouchbaseError::ConnectError(bootstrap_status))
    } else {
        Ok(())
    }
}

/// A connection just bootstrapped: connected, nothing pending, the pump parked.
pub open spec fn fresh_connection(v: InstanceView) -> bool {
    &&& v.state == InstanceState::Connected
    &&& v.bridge.slots.len() == 0
    &&& v.bridge.events.len() == 0
    &&& !v.wake
    &&& !v.stop
    &&& v.pump == PumpPhase::Parked
}

/// How submitting a command of `family` moves the instance from `v` to `w` with
/// result `r`: rejected with a shutdown error, changing nothing, unless the
/// instance accepts commands; else the lowest cookie that owns no pending
/// operation (a new one past the end where all do) now owns one of `family`,
/// every other slot and every delivery is kept, and the pump is signalled.
pub open spec fn submitted(
    v: InstanceView,
    w: InstanceView,
    family: CommandFamily,
    r: Result<usize, CouchbaseError>,
) -> bool {
    if !accepts_commands(v) {
        r == Err::<usize, CouchbaseError>(CouchbaseError::ShutdownError) && w == v
    } else {
        r matches Ok(c) && {
            &&& c <= v.bridge.slots.len()
            &&& forall|j: int| 0 <= j < c ==> v.bridge.slots[j] != Slot::Free
            &&& c < v.bridge.slots.len() ==> v.bridge.slots[c as int] == Slot::Free
            &&& w.bridge.slots == if c < v.bridge.slots.len() {
                v.bridge.slots.update(c as int, Slot::Pending(family))
            } else {
                v.bridge.slots.push(Slot::Pending(family))
            }
            &&& w.bridge.events == v.bridge.events
            &&& w.wake
            &&& w.state == v.state
            &&& w.stop == v.stop
            &&& w.pump == v.pump
        }
    }
}

impl Instance {
    /// Decides the outcome of connecting from what the engine reported: the
    /// status of enabling detailed error codes, then that of the bootstrap.
    /// A connected instance starts with no pending operation and a parked pump.
    pub fn connect(
        connection_string: &str,
        user: &str,
        password: &str,
        control_status: u16,
        bootstrap_status: u16,
    ) -> (r: Result<Instance, CouchbaseError>)
        ensures
            connect_outcome(control_status, bootstrap_status) matches Err(e) ==> r == Err::<
                Instance,
                CouchbaseError,
            >(e),
            connect_outcome(control_status, bootstrap_status) is Ok ==> (r matches Ok(i)
                && fresh_connection(i@) && valid(i@) && i.params.connection_string@ == connection_string@
                && i.params.user@ == user@ && i.params.password@ == password@),
    {
        if control_status != STATUS_SUCCESS {
            return Err(CouchbaseError::ControlError(control_status));
        }
        if bootstrap_status != STATUS_SUCCESS {
            return Err(CouchbaseError::ConnectError(bootstrap_status));
        }
        Ok(
            Instance {
                params: ConnectParams {
                    connection_string: connection_string.to_owned(),
                    user: user.to_owned(),
                    password: password.to_owned(),
                },
                state: InstanceState::Connected,
                table: PendingTable::new(),
                wake: false,
                stop: false,
                pump: PumpPhase::Parked,
            },
        )
    }

    /// Submits a command of `family`: attaches a completion bridge to a free
    /// cookie and signals the pump. Rejected, before anything reaches the
    /// engine, once the instance no longer accepts commands.
    pub fn submit(&mut self, family: CommandFamily) -> (r: Result<usize, CouchbaseError>)
        requires
            old(self)@.bridge.slots.len() < usize::MAX,
        ensures
            submitted(old(self)@, final(self)@, family, r),
            valid(old(self)@) ==> valid(final(self)@),
    {
        if self.state != InstanceState::Connected {
            return Err(CouchbaseError::ShutdownError);
        }
        let c = self.table.register(family);
        self.wake = true;
        Ok(c)
    }

    /// Runs the callback protocol for `cookie`; see `PendingTable::respond`.
    pub fn on_response(&mut self, cookie: usize, r: &RawResponse) -> (delivered: bool)
        ensures
            final(self)@ == on_response_view(old(self)@, cookie as int, r@),
            delivered == is_pending(old(self)@.bridge.slots, cookie as int),
            valid(old(self)@) ==> valid(final(self)@),
    {
        self.table.respond(cookie, r)
    }

    /// Resolves the operation of `cookie` with the engine's status where the
    /// engine refused to schedule its command; see `PendingTable::refuse`.
    pub fn refuse(&mut self, cookie: usize, status: u16) -> (resolved: bool)
        ensures
            final(self)@ == refuse_view(old(self)@, cookie as int, status),
            resolved == (is_pending(old(self)@.bridge.slots, cookie as int) && status
                != STATUS_SUCCESS),
            valid(old(self)@) ==> valid(final(self)@),
    {
        self.table.refuse(cookie, status)
    }

    /// Called by the pump thread each time it wakes.
    pub fn pump_wake(&mut self) -> (a: PumpAction)
        ensures
            a == pump_action(old(self)@),
            final(self)@ == pump_wake_view(old(self)@),
            valid(old(self)@) ==> valid(final(self)@),
    {
        if self.stop {
            if self.pump != PumpPhase::Joined {
                self.pump = PumpPhase::Stopped;
            }
            PumpAction::Exit
        } else if self.wake {
            self.wake = false;
            self.pump = PumpPhase::Dispatching;
            PumpAction::Dispatch
        } else {
            self.pump = PumpPhase::Parked;
            PumpAction::Park
        }
    }

    /// Begins shutdown; see `shutdown_view`. A second call is refused with a
    /// shutdown error, so the engine is never torn down twice.
    pub fn shutdown(&mut self) -> (r: Result<(), CouchbaseError>)
        ensures
            final(self)@ == shutdown_view(old(self)@),
            r is Ok <==> accepts_commands(old(self)@),
            r matches Err(e) ==> e == CouchbaseError::ShutdownError,
            valid(old(self)@) ==> valid(final(self)@),
    {
        if self.state != InstanceState::Connected {
            return Err(CouchbaseError::ShutdownError);
        }
        self.state = InstanceState::ShuttingDown;
        self.stop = true;
        self.wake = true;
        self.table.cancel_all();
        Ok(())
    }

    /// Records that the pump thread was joined; refused while it may still run.
    pub fn pump_joined(&mut self) -> (ok: bool)
        ensures
            ok == can_join(old(self)@),
            valid(old(self)@) ==> valid(final(self)@),
            ok ==> final(self)@ == (InstanceView { pump: PumpPhase::Joined, ..old(self)@ }),
            !ok ==> final(self)@ == old(self)@,
    {
        if self.pump == PumpPhase::Stopped {
            self.pump = PumpPhase::Joined;
            true
        } else {
            false
        }
    }

    /// Decides whether the engine handle may now be destroyed, and if so marks
    /// the instance destroyed.
    pub fn destroy(&mut self) -> (ok: bool)
        ensures
            ok == can_destroy(old(self)@),
            valid(old(self)@) ==> valid(final(self)@),
            ok ==> final(self)@ == (InstanceView { state: InstanceState::Destroyed, ..old(self)@ }),
            !ok ==> final(self)@ == old(self)@,
    {
        if self.state == InstanceState::ShuttingDown && self.pump == PumpPhase::Joined {
            self.state = InstanceState::Destroyed;
            true
        } else {
            false
        }
    }
}


/// The view of joining the pump, where that is allowed.
pub open spec fn join_view(v: InstanceView) -> InstanceView {
    if can_join(v) {
        InstanceView { pump: PumpPhase::Joined, ..v }
    } else {
        v
    }
}

/// The view of destroying the engine, where that is allowed.
pub open spec fn destroy_view(v: InstanceView) -> InstanceView {
    if can_destroy(v) {
        InstanceView { state: InstanceState::Destroyed, ..v }
    } else {
        v
    }
}

/// Once shutdown has run, the instance rejects every command, and no later step
/// (a callback, a pump wake, the join, the destruction) makes it accept one again.
pub proof fn lemma_no_commands_after_shutdown(
    v: InstanceView,
    w: InstanceView,
    c: int,
    r: crate::bridge::ResponseView,
)
    requires
        !accepts_commands(w),
    ensures
        !accepts_commands(shutdown_view(v)),
        !accepts_commands(on_response_view(w, c, r)),
        !accepts_commands(pump_wake_view(w)),
        !accepts_commands(join_view(w)),
        !accepts_commands(destroy_view(w)),
{
}

/// The shutdown delivery for a pending slot `c` lies among those for `slots[0..n]`.
pub proof fn lemma_shutdown_event_for(slots: Seq<Slot>, n: int, c: int)
    requires
        0 <= c < n <= slots.len(),
        slots[c] is Pending,
    ensures
        shutdown_events(slots, n).contains(
            EventView {
                cookie: c,
                delivery: if slots[c]->Pending_0.spec_is_streaming() {
                    DeliveryView::End(Err(CouchbaseError::ShutdownError))
                } else {
                    DeliveryView::Done(Err(CouchbaseError::ShutdownError))
                },
            },
        ),
    decreases n,
{
    let e = EventView {
        cookie: c,
        delivery: if slots[c]->Pending_0.spec_is_streaming() {
            DeliveryView::End(Err(CouchbaseError::ShutdownError))
        } else {
            DeliveryView::Done(Err(CouchbaseError::ShutdownError))
        },
    };
    let prev = shutdown_events(slots, n - 1);
    if c == n - 1 {
        assert(shutdown_events(slots, n) == prev.push(e));
        assert(shutdown_events(slots, n)[prev.len() as int] == e);
    } else {
        lemma_shutdown_event_for(slots, n - 1, c);
        let k = choose|k: int| 0 <= k < prev.len() && prev[k] == e;
        match slots[n - 1] {
            Slot::Pending(f) => {
                assert(shutdown_events(slots, n)[k] == e);
            },
            _ => {},
        }
    }
}

/// Shutting down a connected instance with operations outstanding resolves
/// each of them with a shutdown error, leaves none pending, and keeps what was
/// already delivered. The pump then exits at its next wake; the engine may be
/// destroyed neither before the pump has stopped nor before it is joined, and
/// may be once it is.
pub proof fn lemma_shutdown_resolves_outstanding(v: InstanceView, c: int)
    requires
        valid(v),
        accepts_commands(v),
    ensures
        forall|d: int| !is_pending(#[trigger] shutdown_view(v).bridge.slots, d),
        shutdown_view(v).bridge.events.subrange(0, v.bridge.events.len() as int)
            == v.bridge.events,
        is_pending(v.bridge.slots, c) ==> shutdown_view(v).bridge.events.contains(
            EventView {
                cookie: c,
                delivery: if v.bridge.slots[c]->Pending_0.spec_is_streaming() {
                    DeliveryView::End(Err(CouchbaseError::ShutdownError))
                } else {
                    DeliveryView::Done(Err(CouchbaseError::ShutdownError))
                },
            },
        ),
        pump_action(shutdown_view(v)) == PumpAction::Exit,
        !can_destroy(shutdown_view(v)),
        !can_destroy(pump_wake_view(shutdown_view(v))),
        can_join(pump_wake_view(shutdown_view(v))),
        can_destroy(join_view(pump_wake_view(shutdown_view(v)))),
{
    let w = shutdown_view(v);
    let sev = shutdown_events(v.bridge.slots, v.bridge.slots.len() as int);
    assert(w.bridge.events.subrange(0, v.bridge.events.len() as int) =~= v.bridge.events);
    if is_pending(v.bridge.slots, c) {
        lemma_shutdown_event_for(v.bridge.slots, v.bridge.slots.len() as int, c);
        let e = EventView {
            cookie: c,
            delivery: if v.bridge.slots[c]->Pending_0.spec_is_streaming() {
                DeliveryView::End(Err(CouchbaseError::ShutdownError))
            } else {
                DeliveryView::Done(Err(CouchbaseError::ShutdownError))
            },
        };
        let k = choose|k: int| 0 <= k < sev.len() && sev[k] == e;
        assert(w.bridge.events[v.bridge.events.len() + k] == e);
    }
}

/// `vs[i + 1]` is `vs[i]` after submitting a command of `fs[i]` that got cookie
/// `cs[i]`, with no callback in between.
pub open spec fn submitted_in_turn(
    vs: Seq<InstanceView>,
    fs: Seq<CommandFamily>,
    cs: Seq<usize>,
) -> bool {
    &&& vs.len() == cs.len() + 1
    &&& fs.len() == cs.len()
    &&& forall|i: int|
        0 <= i < cs.len() ==> #[trigger] submitted(vs[i], vs[i + 1], fs[i], Ok(cs[i]))
}

/// A cookie in use (pending or draining) is never handed to a new submission,
/// and a submission leaves its slot as it was.
pub proof fn lemma_cookie_in_use_not_reused(
    v: InstanceView,
    w: InstanceView,
    f: CommandFamily,
    r: Result<usize, CouchbaseError>,
    c: int,
)
    requires
        submitted(v, w, f, r),
        0 <= c < v.bridge.slots.len(),
        v.bridge.slots[c] != Slot::Free,
    ensures
        r matches Ok(k) ==> k != c,
        c < w.bridge.slots.len() && w.bridge.slots[c] == v.bridge.slots[c],
{
}

/// Commands submitted one after another on one connection, with none answered
/// yet, get pairwise distinct cookies, and each cookie then names its own
/// operation: the first `n` of them all own pending operations of their family.
pub proof fn lemma_submissions_distinct(
    vs: Seq<InstanceView>,
    fs: Seq<CommandFamily>,
    cs: Seq<usize>,
    n: int,
)
    requires
        submitted_in_turn(vs, fs, cs),
        0 <= n <= cs.len(),
    ensures
        forall|i: int, j: int| 0 <= i < j < n ==> cs[i] != cs[j],
        forall|i: int|
            0 <= i < n ==> cs[i] < vs[n].bridge.slots.len() && vs[n].bridge.slots[cs[i] as int]
                == Slot::Pending(fs[i]),
    decreases n,
{
    if n > 0 {
        lemma_submissions_distinct(vs, fs, cs, n - 1);
        let k = n - 1;
        assert(submitted(vs[k], vs[k + 1], fs[k], Ok(cs[k])));
        assert forall|i: int| 0 <= i < k implies cs[i] != cs[k] && cs[i] < vs[n].bridge.slots.len()
            && vs[n].bridge.slots[cs[i] as int] == Slot::Pending(fs[i]) by {
            lemma_cookie_in_use_not_reused(vs[k], vs[k + 1], fs[k], Ok(cs[k]), cs[i] as int);
        }
    }
}

} // verus!

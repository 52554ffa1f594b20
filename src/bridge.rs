use vstd::prelude::*;

use crate::error::{CouchbaseError, STATUS_SUCCESS};
use crate::text::{decode_text, utf8_text, valid_utf8};

verus! {

/// The families of commands that the engine accepts, one response callback each.
#[derive(Debug, Clone, Copy, PartialEq, Eq, Structural)]
pub enum CommandFamily {
    Get,
    Store,
    Remove,
    StatementQuery,
    ViewQuery,
}

impl CommandFamily {
    /// Streaming families deliver any number of rows and then one terminal record.
    pub open spec fn spec_is_streaming(self) -> bool {
        self is StatementQuery || self is ViewQuery
    }

    pub fn is_streaming(&self) -> (r: bool)
        ensures
            r == self.spec_is_streaming(),
    {
        match self {
            CommandFamily::StatementQuery | CommandFamily::ViewQuery => true,
            _ => false,
        }
    }
}

/// One slot of the arena of pending operations; its index is the cookie.
#[derive(Debug, Clone, Copy, PartialEq, Eq, Structural)]
pub enum Slot {
    Free,
    Pending(CommandFamily),
    /// A streaming operation that an error has already resolved while the engine
    /// still holds its cookie: the cookie stays reserved, and what the engine
    /// still sends for it is dropped, until its final record releases it.
    Draining,
}

/// A response as the engine hands it to a callback. The byte buffers are
/// copies of what the engine owned for the duration of the callback.
#[derive(Debug, Clone)]
pub struct RawResponse {
    pub status: u16,
    pub key: Vec<u8>,
    pub value: Option<Vec<u8>>,
    pub version: Vec<u8>,
    pub is_final: bool,
}

pub struct ResponseView {
    pub status: u16,
    pub key: Seq<u8>,
    pub value: Option<Seq<u8>>,
    pub version: Seq<u8>,
    pub is_final: bool,
}

impl View for RawResponse {
    type V = ResponseView;

    open spec fn view(&self) -> ResponseView {
        ResponseView {
            status: self.status,
            key: self.key@,
            value: match self.value {
                Some(v) => Some(v@),
                None => None,
            },
            version: self.version@,
            is_final: self.is_final,
        }
    }
}

/// The result of a single-shot operation: the document id, its value where
/// the operation returns one, and the version token after the operation.
#[derive(Debug, Clone, PartialEq, Eq)]
pub struct Document {
    pub id: String,
    pub value: Option<String>,
    pub version: String,
}

pub struct DocumentView {
    pub id: Seq<char>,
    pub value: Option<Seq<char>>,
    pub version: Seq<char>,
}

impl View for Document {
    type V = DocumentView;

    open spec fn view(&self) -> DocumentView {
        DocumentView {
            id: self.id@,
            value: match self.value {
                Some(v) => Some(v@),
                None => None,
            },
            version: self.version@,
        }
    }
}

/// What a completion bridge hands to the caller's future or stream.
#[derive(Debug)]
pub enum Delivery {
    /// The single result of a get, store or remove.
    Done(Result<Document, CouchbaseError>),
    /// One row of a streaming operation.
    Row(String),
    /// The terminal record of a streaming operation: its meta data, or the error
    /// that ended it.
    End(Result<String, CouchbaseError>),
}

pub enum DeliveryView {
    Done(Result<DocumentView, CouchbaseError>),
    Row(Seq<char>),
    End(Result<Seq<char>, CouchbaseError>),
}

/// A delivery addressed to the operation that owns `cookie`.
#[derive(Debug)]
pub struct Event {
    pub cookie: usize,
    pub delivery: Delivery,
}

pub struct EventView {
    pub cookie: int,
    pub delivery: DeliveryView,
}

impl View for Event {
    type V = EventView;

    open spec fn view(&self) -> EventView {
        EventView {
            cookie: self.cookie as int,
            delivery: self.delivery@,
        }
    }
}

impl View for Delivery {
    type V = DeliveryView;

    open spec fn view(&self) -> DeliveryView {
        match *self {
            Delivery::Done(Ok(d)) => DeliveryView::Done(Ok(d@)),
            Delivery::Done(Err(e)) => DeliveryView::Done(Err(e)),
            Delivery::Row(s) => DeliveryView::Row(s@),
            Delivery::End(Ok(s)) => DeliveryView::End(Ok(s@)),
            Delivery::End(Err(e)) => DeliveryView::End(Err(e)),
        }
    }
}

/// The text that `b` holds, if it is well-formed UTF-8.
pub open spec fn text_of(b: Seq<u8>) -> Option<Seq<char>> {
    if valid_utf8(b) {
        Some(utf8_text(b))
    } else {
        None
    }
}

/// The row or meta bytes of a streaming response; none reads as empty.
pub open spec fn payload(r: ResponseView) -> Seq<u8> {
    match r.value {
        Some(v) => v,
        None => Seq::empty(),
    }
}

/// What a get, store or remove callback resolves its operation with.
pub open spec fn single_outcome(r: ResponseView) -> Result<DocumentView, CouchbaseError> {
    if r.status != STATUS_SUCCESS {
        Err(CouchbaseError::OperationError(r.status))
    } else if !valid_utf8(r.key) || !valid_utf8(r.version) || (r.value matches Some(v)
        && !valid_utf8(v)) {
        Err(CouchbaseError::DecodingError)
    } else {
        Ok(
            DocumentView {
                id: utf8_text(r.key),
                value: match r.value {
                    Some(v) => Some(utf8_text(v)),
                    None => None,
                },
                version: utf8_text(r.version),
            },
        )
    }
}

/// What a streaming callback delivers for one response.
pub open spec fn stream_delivery(r: ResponseView) -> DeliveryView {
    if r.status != STATUS_SUCCESS {
        DeliveryView::End(Err(CouchbaseError::OperationError(r.status)))
    } else if !valid_utf8(payload(r)) {
        DeliveryView::End(Err(CouchbaseError::DecodingError))
    } else if r.is_final {
        DeliveryView::End(Ok(utf8_text(payload(r))))
    } else {
        DeliveryView::Row(utf8_text(payload(r)))
    }
}

/// What the callback for an operation of `family` delivers for `r`.
pub open spec fn delivery_for(family: CommandFamily, r: ResponseView) -> DeliveryView {
    if family.spec_is_streaming() {
        stream_delivery(r)
    } else {
        DeliveryView::Done(single_outcome(r))
    }
}

/// The slot of an operation of `family` after its callback fires with `r`. The
/// engine stops using a cookie only with a single-shot response or a final
/// record: only then is the slot released. A streaming operation that has
/// delivered its end before that drains until its final record.
pub open spec fn slot_after(family: CommandFamily, r: ResponseView) -> Slot {
    if !family.spec_is_streaming() || r.is_final {
        Slot::Free
    } else if delivery_for(family, r) is Row {
        Slot::Pending(family)
    } else {
        Slot::Draining
    }
}

/// The arena's state: its slots and the deliveries not yet taken.
pub struct BridgeView {
    pub slots: Seq<Slot>,
    pub events: Seq<EventView>,
}

pub open spec fn slot_is_pending(s: Slot) -> bool {
    s is Pending
}

pub open spec fn is_pending(slots: Seq<Slot>, c: int) -> bool {
    0 <= c < slots.len() && slots[c] is Pending
}

pub open spec fn is_draining(slots: Seq<Slot>, c: int) -> bool {
    0 <= c < slots.len() && slots[c] is Draining
}

/// Cookie `c` names a streaming operation that the engine may still call back.
pub open spec fn holds_stream(slots: Seq<Slot>, c: int) -> bool {
    is_draining(slots, c) || (is_pending(slots, c) && slots[c]->Pending_0.spec_is_streaming())
}

/// The state after the engine invokes a callback with cookie `c` and response `r`.
/// A draining cookie delivers nothing and is released by its final record; a
/// free cookie is ignored.
pub open spec fn respond(v: BridgeView, c: int, r: ResponseView) -> BridgeView {
    if is_pending(v.slots, c) {
        let f = v.slots[c]->Pending_0;
        BridgeView {
            slots: v.slots.update(c, slot_after(f, r)),
            events: v.events.push(EventView { cookie: c, delivery: delivery_for(f, r) }),
        }
    } else if is_draining(v.slots, c) && r.is_final {
        BridgeView { slots: v.slots.update(c, Slot::Free), events: v.events }
    } else {
        v
    }
}

/// What the engine's refusal to schedule the command of cookie `c`, with status
/// `status`, resolves the operation with.
pub open spec fn refusal_delivery(family: CommandFamily, status: u16) -> DeliveryView {
    if family.spec_is_streaming() {
        DeliveryView::End(Err(CouchbaseError::OperationError(status)))
    } else {
        DeliveryView::Done(Err(CouchbaseError::OperationError(status)))
    }
}

/// The state after the engine refuses to schedule the command of cookie `c`: the
/// engine never calls back for it, so its operation is resolved with the
/// engine's status and its cookie released at once.
pub open spec fn refuse(v: BridgeView, c: int, status: u16) -> BridgeView {
    if is_pending(v.slots, c) && status != STATUS_SUCCESS {
        BridgeView {
            slots: v.slots.update(c, Slot::Free),
            events: v.events.push(
                EventView { cookie: c, delivery: refusal_delivery(v.slots[c]->Pending_0, status) },
            ),
        }
    } else {
        v
    }
}

/// The state after the engine invokes the callback for `c` once per response of `rs`.
pub open spec fn respond_all(v: BridgeView, c: int, rs: Seq<ResponseView>) -> BridgeView
    decreases rs.len(),
{
    if rs.len() == 0 {
        v
    } else {
        respond(respond_all(v, c, rs.drop_last()), c, rs.last())
    }
}

/// The deliveries that resolve, with a shutdown error, every operation pending
/// among `slots[0..n]`, in cookie order.
pub open spec fn shutdown_events(slots: Seq<Slot>, n: int) -> Seq<EventView>
    decreases n,
{
    if n <= 0 {
        Seq::empty()
    } else {
        let prev = shutdown_events(slots, n - 1);
        match slots[n - 1] {
            Slot::Pending(f) => prev.push(
                EventView {
                    cookie: n - 1,
                    delivery: if f.spec_is_streaming() {
                        DeliveryView::End(Err(CouchbaseError::ShutdownError))
                    } else {
                        DeliveryView::Done(Err(CouchbaseError::ShutdownError))
                    },
                },
            ),
            _ => prev,
        }
    }
}

/// The state after every pending operation is resolved with a shutdown error.
pub open spec fn cancel_all(v: BridgeView) -> BridgeView {
    BridgeView {
        slots: Seq::new(v.slots.len(), |i: int| Slot::Free),
        events: v.events + shutdown_events(v.slots, v.slots.len() as int),
    }
}

/// The arena of pending operations that pairs each cookie with its completion
/// bridge, and the deliveries that the bridges have produced.
pub struct PendingTable {
    pub slots: Vec<Slot>,
    pub events: Vec<Event>,
}

impl View for PendingTable {
    type V = BridgeView;

    open spec fn view(&self) -> BridgeView {
        BridgeView { slots: self.slots@, events: self.events@.map_values(|e: Event| e@) }
    }
}

/// Copies a delivery's text out of the response, decoding it.
fn decode_single(r: &RawResponse) -> (d: Result<Document, CouchbaseError>)
    ensures
        match (d, single_outcome(r@)) {
            (Ok(x), Ok(y)) => x@ == y,
            (Err(x), Err(y)) => x == y,
            _ => false,
        },
{
    if r.status != STATUS_SUCCESS {
        return Err(CouchbaseError::OperationError(r.status));
    }
    let id = match decode_text(r.key.as_slice()) {
        Some(s) => s,
        None => {
            return Err(CouchbaseError::DecodingError);
        },
    };
    let version = match decode_text(r.version.as_slice()) {
        Some(s) => s,
        None => {
            return Err(CouchbaseError::DecodingError);
        },
    };
    let value = match &r.value {
        Some(v) => match decode_text(v.as_slice()) {
            Some(s) => Some(s),
            None => {
                return Err(CouchbaseError::DecodingError);
            },
        },
        None => None,
    };
    Ok(Document { id, value, version })
}

fn decode_stream(r: &RawResponse) -> (d: Delivery)
    ensures
        d@ == stream_delivery(r@),
{
    if r.status != STATUS_SUCCESS {
        return Delivery::End(Err(CouchbaseError::OperationError(r.status)));
    }
    let text = match &r.value {
        Some(v) => decode_text(v.as_slice()),
        None => {
            let empty: Vec<u8> = Vec::new();
            assert(empty@ =~= Seq::<u8>::empty());
            decode_text(empty.as_slice())
        },
    };
    match text {
        None => Delivery::End(Err(CouchbaseError::DecodingError)),
        Some(s) => if r.is_final {
            Delivery::End(Ok(s))
        } else {
            Delivery::Row(s)
        },
    }
}

impl PendingTable {
    pub fn new() -> (t: PendingTable)
        ensures
            t@.slots.len() == 0,
            t@.events.len() == 0,
    {
        PendingTable { slots: Vec::new(), events: Vec::new() }
    }

    pub fn slot(&self, cookie: usize) -> (s: Slot)
        ensures
            s == (if cookie < self@.slots.len() {
                self@.slots[cookie as int]
            } else {
                Slot::Free
            }),
    {
        if cookie < self.slots.len() {
            self.slots[cookie]
        } else {
            Slot::Free
        }
    }

    /// The number of operations still waiting for their callback.
    pub fn outstanding(&self) -> (n: usize)
        ensures
            n == self@.slots.filter(|s: Slot| slot_is_pending(s)).len(),
    {
        let mut n: usize = 0;
        let mut i: usize = 0;
        while i < self.slots.len()
            invariant
                i <= self.slots@.len(),
                n == self.slots@.subrange(0, i as int).filter(|s: Slot| slot_is_pending(s)).len(),
                n <= i,
            decreases self.slots@.len() - i,
        {
            proof {
                let s = self.slots@;
                assert(s.subrange(0, i + 1).drop_last() =~= s.subrange(0, i as int));
                reveal(Seq::filter);
            }
            if let Slot::Pending(_) = self.slots[i] {
                n = n + 1;
            }
            i = i + 1;
        }
        assert(self.slots@.subrange(0, i as int) =~= self.slots@);
        n
    }
}


impl PendingTable {
    /// Attaches a new completion bridge for `family` to a cookie that owns no
    /// pending operation: the lowest free slot, else a new one at the end.
    pub fn register(&mut self, family: CommandFamily) -> (cookie: usize)
        requires
            old(self)@.slots.len() < usize::MAX,
        ensures
            cookie <= old(self)@.slots.len(),
            cookie < old(self)@.slots.len() ==> old(self)@.slots[cookie as int] == Slot::Free,
            forall|j: int| 0 <= j < cookie ==> (old(self)@.slots[j] != Slot::Free),
            cookie < old(self)@.slots.len() ==> final(self)@.slots == old(self)@.slots.update(
                cookie as int,
                Slot::Pending(family),
            ),
            cookie == old(self)@.slots.len() ==> final(self)@.slots == old(self)@.slots.push(
                Slot::Pending(family),
            ),
            final(self)@.events == old(self)@.events,
    {
        let mut i: usize = 0;
        while i < self.slots.len()
            invariant
                i <= self.slots@.len(),
                self.slots@ == old(self).slots@,
                self.events@ == old(self).events@,
                forall|j: int| 0 <= j < i ==> self.slots@[j] != Slot::Free,
            decreases self.slots@.len() - i,
        {
            if let Slot::Free = self.slots[i] {
                self.slots.set(i, Slot::Pending(family));
                return i;
            }
            i = i + 1;
        }
        self.slots.push(Slot::Pending(family));
        i
    }

    /// The callback protocol: recovers the bridge that `cookie` names, maps the
    /// status, copies and decodes the payload, and delivers the result. A single-shot
    /// bridge, and a streaming one at its final record, is released; a streaming
    /// one keeps its cookie until its final record, and drains once an error has
    /// ended it. A cookie that owns no pending operation (already resolved, or
    /// never issued) delivers nothing. Returns whether anything was delivered.
    pub fn respond(&mut self, cookie: usize, r: &RawResponse) -> (delivered: bool)
        ensures
            final(self)@ == respond(old(self)@, cookie as int, r@),
            delivered == is_pending(old(self)@.slots, cookie as int),
            holds_stream(old(self)@.slots, cookie as int) ==> (final(self)@.slots[cookie as int]
                == Slot::Free <==> r.is_final),
    {
        if cookie >= self.slots.len() {
            return false;
        }
        let family = match self.slots[cookie] {
            Slot::Free => {
                return false;
            },
            Slot::Draining => {
                if r.is_final {
                    self.slots.set(cookie, Slot::Free);
                }
                return false;
            },
            Slot::Pending(f) => f,
        };
        let delivery = if family.is_streaming() {
            decode_stream(r)
        } else {
            Delivery::Done(decode_single(r))
        };
        let keep = match delivery {
            Delivery::Row(_) => true,
            _ => false,
        };
        if !family.is_streaming() || r.is_final {
            self.slots.set(cookie, Slot::Free);
        } else if !keep {
            self.slots.set(cookie, Slot::Draining);
        }
        assert(self.slots@ =~= old(self).slots@.update(cookie as int, slot_after(family, r@)));
        let ghost before = self.events@;
        self.events.push(Event { cookie, delivery });
        proof {
            assert(self.events@.map_values(|e: Event| e@) =~= before.map_values(|e: Event| e@).push(
                self.events@.last()@,
            ));
        }
        true
    }

    /// Resolves the operation of `cookie` with the engine's status where the
    /// engine refused to schedule its command.
    pub fn refuse(&mut self, cookie: usize, status: u16) -> (resolved: bool)
        ensures
            final(self)@ == refuse(old(self)@, cookie as int, status),
            resolved == (is_pending(old(self)@.slots, cookie as int) && status != STATUS_SUCCESS),
    {
        if cookie >= self.slots.len() || status == STATUS_SUCCESS {
            return false;
        }
        let family = match self.slots[cookie] {
            Slot::Pending(f) => f,
            _ => {
                return false;
            },
        };
        let delivery = if family.is_streaming() {
            Delivery::End(Err(CouchbaseError::OperationError(status)))
        } else {
            Delivery::Done(Err(CouchbaseError::OperationError(status)))
        };
        self.slots.set(cookie, Slot::Free);
        let ghost before = self.events@;
        self.events.push(Event { cookie, delivery });
        proof {
            assert(self.events@.map_values(|e: Event| e@) =~= before.map_values(|e: Event| e@).push(
                self.events@.last()@,
            ));
        }
        true
    }

    /// Resolves every pending operation with a shutdown error, in cookie order,
    /// and releases all bridges, draining ones included (they deliver nothing more).
    pub fn cancel_all(&mut self)
        ensures
            final(self)@ == cancel_all(old(self)@),
    {
        let ghost old_slots = self.slots@;
        let ghost old_events = self@.events;
        let mut i: usize = 0;
        while i < self.slots.len()
            invariant
                i <= self.slots@.len(),
                self.slots@.len() == old_slots.len(),
                forall|j: int| 0 <= j < i ==> self.slots@[j] == Slot::Free,
                forall|j: int| i <= j < old_slots.len() ==> self.slots@[j] == old_slots[j],
                self@.events == old_events + shutdown_events(old_slots, i as int),
            decreases self.slots@.len() - i,
        {
            if let Slot::Draining = self.slots[i] {
                self.slots.set(i, Slot::Free);
            } else if let Slot::Pending(f) = self.slots[i] {
                let delivery = if f.is_streaming() {
                    Delivery::End(Err(CouchbaseError::ShutdownError))
                } else {
                    Delivery::Done(Err(CouchbaseError::ShutdownError))
                };
                let ghost before = self.events@;
                self.events.push(Event { cookie: i, delivery });
                self.slots.set(i, Slot::Free);
                proof {
                    assert(self.events@.map_values(|e: Event| e@) =~= before.map_values(
                        |e: Event| e@,
                    ).push(self.events@.last()@));
                    assert(shutdown_events(old_slots, i + 1) == shutdown_events(
                        old_slots,
                        i as int,
                    ).push(self.events@.last()@));
                }
            }
            i = i + 1;
        }
        proof {
            assert(self@.slots =~= Seq::new(old_slots.len(), |i: int| Slot::Free));
        }
    }

    /// Hands out the deliveries produced so far, oldest first.
    pub fn take_events(&mut self) -> (out: Vec<Event>)
        ensures
            out@.map_values(|e: Event| e@) == old(self)@.events,
            final(self)@.slots == old(self)@.slots,
            final(self)@.events.len() == 0,
    {
        let mut out: Vec<Event> = Vec::new();
        std::mem::swap(&mut out, &mut self.events);
        proof {
            assert(self@.events =~= Seq::<EventView>::empty());
        }
        out
    }
}


/// The state after the engine answers cookie `cs[i]` with `rs[i]`, for each `i` in turn.
pub open spec fn respond_each(v: BridgeView, cs: Seq<int>, rs: Seq<ResponseView>) -> BridgeView
    decreases cs.len(),
{
    if cs.len() == 0 || rs.len() == 0 {
        v
    } else {
        respond(respond_each(v, cs.drop_last(), rs.drop_last()), cs.last(), rs.last())
    }
}

/// A single-shot operation is resolved by its first callback, which releases its
/// cookie; a second callback with the same cookie changes nothing and delivers nothing.
pub proof fn lemma_single_completes_once(v: BridgeView, c: int, r1: ResponseView, r2: ResponseView)
    requires
        is_pending(v.slots, c),
        !v.slots[c]->Pending_0.spec_is_streaming(),
    ensures
        respond(v, c, r1).events == v.events.push(
            EventView { cookie: c, delivery: DeliveryView::Done(single_outcome(r1)) },
        ),
        !is_pending(respond(v, c, r1).slots, c),
        respond(respond(v, c, r1), c, r2) == respond(v, c, r1),
{
}

/// Answering one cookie leaves the slot of every other cookie as it was.
pub proof fn lemma_respond_keeps_others(v: BridgeView, c: int, r: ResponseView, d: int)
    requires
        d != c,
    ensures
        respond(v, c, r).slots.len() == v.slots.len(),
        0 <= d < v.slots.len() ==> respond(v, c, r).slots[d] == v.slots[d],
{
}

/// Operations submitted on one connection and answered by the engine in any order
/// each receive exactly one delivery, their own outcome, in the order of the
/// callbacks, and none of them is left pending.
pub proof fn lemma_all_single_shot_resolve(v: BridgeView, cs: Seq<int>, rs: Seq<ResponseView>)
    requires
        cs.len() == rs.len(),
        forall|i: int, j: int| 0 <= i < j < cs.len() ==> cs[i] != cs[j],
        forall|i: int|
            0 <= i < cs.len() ==> #[trigger] is_pending(v.slots, cs[i])
                && !v.slots[cs[i]]->Pending_0.spec_is_streaming(),
    ensures
        respond_each(v, cs, rs).events == v.events + Seq::new(
            cs.len(),
            |i: int| EventView { cookie: cs[i], delivery: DeliveryView::Done(single_outcome(rs[i])) },
        ),
        forall|i: int| 0 <= i < cs.len() ==> !is_pending(respond_each(v, cs, rs).slots, #[trigger] cs[i]),
        respond_each(v, cs, rs).slots.len() == v.slots.len(),
        forall|d: int|
            0 <= d < v.slots.len() && !cs.contains(d) ==> respond_each(v, cs, rs).slots[d]
                == v.slots[d],
    decreases cs.len(),
{
    if cs.len() > 0 {
        let n = cs.len() - 1;
        let cs0 = cs.drop_last();
        let rs0 = rs.drop_last();
        lemma_all_single_shot_resolve(v, cs0, rs0);
        let w = respond_each(v, cs0, rs0);
        assert(!cs0.contains(cs[n])) by {
            if cs0.contains(cs[n]) {
                let k = choose|k: int| 0 <= k < cs0.len() && cs0[k] == cs[n];
                assert(cs[k] == cs[n]);
            }
        }
        assert(is_pending(v.slots, cs[n]));
        assert(w.slots[cs[n]] == v.slots[cs[n]]);
        assert forall|d: int| 0 <= d < v.slots.len() && !cs.contains(d) implies respond_each(
            v,
            cs,
            rs,
        ).slots[d] == v.slots[d] by {
            assert(cs[n] != d);
            if cs0.contains(d) {
                let k = choose|k: int| 0 <= k < cs0.len() && cs0[k] == d;
                assert(cs[k] == d);
            }
        }
        assert forall|i: int| 0 <= i < cs.len() implies !is_pending(
            respond_each(v, cs, rs).slots,
            #[trigger] cs[i],
        ) by {
            if i < n {
                assert(cs0[i] == cs[i]);
                lemma_respond_keeps_others(w, cs[n], rs[n], cs[i]);
            }
        }
        assert(respond_each(v, cs, rs).events =~= v.events + Seq::new(
            cs.len(),
            |i: int| EventView { cookie: cs[i], delivery: DeliveryView::Done(single_outcome(rs[i])) },
        ));
    }
}

/// A streaming response that carries one row of well-formed text.
pub open spec fn is_good_row(r: ResponseView) -> bool {
    r.status == STATUS_SUCCESS && !r.is_final && valid_utf8(payload(r))
}

/// The rows that a sequence of good row responses delivers to cookie `c`.
pub open spec fn row_events(c: int, rows: Seq<ResponseView>) -> Seq<EventView> {
    Seq::new(
        rows.len(),
        |i: int| EventView { cookie: c, delivery: DeliveryView::Row(utf8_text(payload(rows[i]))) },
    )
}

/// While a streaming operation receives good rows, each row is delivered in
/// callback order and its bridge stays attached to its cookie.
pub proof fn lemma_rows_in_order(v: BridgeView, c: int, rows: Seq<ResponseView>)
    requires
        is_pending(v.slots, c),
        v.slots[c]->Pending_0.spec_is_streaming(),
        forall|i: int| 0 <= i < rows.len() ==> is_good_row(#[trigger] rows[i]),
    ensures
        respond_all(v, c, rows).slots == v.slots,
        respond_all(v, c, rows).events == v.events + row_events(c, rows),
    decreases rows.len(),
{
    if rows.len() > 0 {
        let r0 = rows.drop_last();
        lemma_rows_in_order(v, c, r0);
        assert(is_good_row(rows[rows.len() - 1]));
        assert(row_events(c, rows) =~= row_events(c, r0).push(
            EventView { cookie: c, delivery: DeliveryView::Row(utf8_text(payload(rows.last()))) },
        ));
    }
}

/// A streaming operation that produces `rows` and then a terminal meta record
/// yields exactly those rows in callback order and then exactly one terminal
/// delivery; its bridge is then released, and a later callback with the same
/// cookie delivers nothing.
pub proof fn lemma_stream_rows_then_end(
    v: BridgeView,
    c: int,
    rows: Seq<ResponseView>,
    meta: ResponseView,
    later: ResponseView,
)
    requires
        is_pending(v.slots, c),
        v.slots[c]->Pending_0.spec_is_streaming(),
        forall|i: int| 0 <= i < rows.len() ==> is_good_row(#[trigger] rows[i]),
        meta.status == STATUS_SUCCESS,
        meta.is_final,
        valid_utf8(payload(meta)),
    ensures
        respond_all(v, c, rows.push(meta)).events == v.events + row_events(c, rows).push(
            EventView { cookie: c, delivery: DeliveryView::End(Ok(utf8_text(payload(meta)))) },
        ),
        !is_pending(respond_all(v, c, rows.push(meta)).slots, c),
        respond(respond_all(v, c, rows.push(meta)), c, later) == respond_all(v, c, rows.push(meta)),
{
    lemma_rows_in_order(v, c, rows);
    assert(rows.push(meta).drop_last() =~= rows);
}

/// A successful response whose key bytes, or whose row bytes for a streaming
/// operation, are not valid text resolves its operation with a decoding error
/// and releases its bridge: never a result built from those bytes.
pub proof fn lemma_invalid_text_is_decoding_error(v: BridgeView, c: int, r: ResponseView)
    requires
        is_pending(v.slots, c),
        r.status == STATUS_SUCCESS,
        if v.slots[c]->Pending_0.spec_is_streaming() {
            !valid_utf8(payload(r))
        } else {
            !valid_utf8(r.key)
        },
    ensures
        respond(v, c, r).events.last() == (EventView {
            cookie: c,
            delivery: if v.slots[c]->Pending_0.spec_is_streaming() {
                DeliveryView::End(Err(CouchbaseError::DecodingError))
            } else {
                DeliveryView::Done(Err(CouchbaseError::DecodingError))
            },
        }),
        respond(v, c, r).events.len() == v.events.len() + 1,
        !is_pending(respond(v, c, r).slots, c),
{
}

} // verus!

//! The bridge hub: adapters attach under a unique name, each with a bounded
//! inbox; an event published by one adapter is delivered to every other
//! attached adapter. A full inbox drops the event for that adapter only.

use vstd::prelude::*;
use crate::error::HubError;

verus! {

/// A message received by one adapter, as handed to its siblings.
#[derive(Debug)]
pub struct BridgeEvent {
    pub origin_adapter: String,
    pub platform_message_id: String,
    pub conversation_key: String,
    pub payload: String,
    pub timestamp: u64,
}

pub struct EventView {
    pub origin_adapter: Seq<char>,
    pub platform_message_id: Seq<char>,
    pub conversation_key: Seq<char>,
    pub payload: Seq<char>,
    pub timestamp: u64,
}

impl View for BridgeEvent {
    type V = EventView;

    open spec fn view(&self) -> EventView {
        EventView {
            origin_adapter: self.origin_adapter@,
            platform_message_id: self.platform_message_id@,
            conversation_key: self.conversation_key@,
            payload: self.payload@,
            timestamp: self.timestamp,
        }
    }
}

impl BridgeEvent {
    pub fn new(
        origin_adapter: String,
        platform_message_id: String,
        conversation_key: String,
        payload: String,
        timestamp: u64,
    ) -> (r: BridgeEvent)
        ensures
            r.origin_adapter@ == origin_adapter@,
            r.platform_message_id@ == platform_message_id@,
            r.conversation_key@ == conversation_key@,
            r.payload@ == payload@,
            r.timestamp == timestamp,
    {
        BridgeEvent { origin_adapter, platform_message_id, conversation_key, payload, timestamp }
    }

    /// A field-by-field copy, as forwarded to one sibling.
    pub fn copy(&self) -> (r: BridgeEvent)
        ensures
            r@ == self@,
    {
        BridgeEvent {
            origin_adapter: self.origin_adapter.clone(),
            platform_message_id: self.platform_message_id.clone(),
            conversation_key: self.conversation_key.clone(),
            payload: self.payload.clone(),
            timestamp: self.timestamp,
        }
    }
}

/// An attached adapter and the events waiting for it.
pub struct Adapter {
    name: String,
    inbox: Vec<BridgeEvent>,
    capacity: usize,
}

pub struct AdapterView {
    pub name: Seq<char>,
    pub inbox: Seq<EventView>,
    pub capacity: nat,
}

impl View for Adapter {
    type V = AdapterView;

    closed spec fn view(&self) -> AdapterView {
        AdapterView {
            name: self.name@,
            inbox: self.inbox@.map_values(|e: BridgeEvent| e@),
            capacity: self.capacity as nat,
        }
    }
}

/// What an adapter holds after `e` is published: unchanged when it is the
/// origin or its inbox is full, otherwise `e` is queued at the back.
pub open spec fn deliver(a: AdapterView, e: EventView) -> AdapterView {
    if a.name == e.origin_adapter || a.inbox.len() >= a.capacity {
        a
    } else {
        AdapterView { inbox: a.inbox.push(e), ..a }
    }
}

pub open spec fn published(s: Seq<AdapterView>, e: EventView) -> Seq<AdapterView> {
    s.map_values(|a: AdapterView| deliver(a, e))
}

pub open spec fn has_name(s: Seq<AdapterView>, name: Seq<char>) -> bool {
    exists|i: int| 0 <= i < s.len() && #[trigger] s[i].name == name
}

/// Two events published in turn by one origin reach a sibling with room for
/// both in the order they were published.
pub proof fn lemma_per_origin_order(s: Seq<AdapterView>, e1: EventView, e2: EventView, b: int)
    requires
        0 <= b < s.len(),
        e1.origin_adapter == e2.origin_adapter,
        s[b].name != e1.origin_adapter,
        s[b].inbox.len() + 2 <= s[b].capacity,
    ensures
        published(published(s, e1), e2)[b].inbox == s[b].inbox.push(e1).push(e2),
{
}

/// A published event reaches every sibling with room in its inbox, never the
/// origin; a full sibling leaves the others unaffected.
pub proof fn lemma_fan_out_isolation(s: Seq<AdapterView>, e: EventView, b: int)
    requires
        0 <= b < s.len(),
    ensures
        s[b].name == e.origin_adapter ==> published(s, e)[b] == s[b],
        s[b].name != e.origin_adapter && s[b].inbox.len() < s[b].capacity
            ==> published(s, e)[b].inbox == s[b].inbox.push(e),
        s[b].inbox.len() >= s[b].capacity ==> published(s, e)[b] == s[b],
{
}

pub struct Hub {
    adapters: Vec<Adapter>,
}

impl View for Hub {
    type V = Seq<AdapterView>;

    closed spec fn view(&self) -> Seq<AdapterView> {
        self.adapters@.map_values(|a: Adapter| a@)
    }
}

impl Hub {
    /// Names are unique and no inbox holds more than its capacity.
    pub open spec fn wf(&self) -> bool {
        &&& forall|i: int, j: int|
            0 <= i < self@.len() && 0 <= j < self@.len() && i != j ==> #[trigger] self@[i].name
                != #[trigger] self@[j].name
        &&& forall|i: int| 0 <= i < self@.len() ==> #[trigger] self@[i].inbox.len() <= self@[i].capacity
    }

    pub fn new() -> (r: Hub)
        ensures
            r.wf(),
            r@ == Seq::<AdapterView>::empty(),
    {
        let r = Hub { adapters: Vec::new() };
        assert(r@ =~= Seq::<AdapterView>::empty());
        r
    }

    fn find(&self, name: &String) -> (r: Option<usize>)
        ensures
            r matches Some(i) ==> i < self@.len() && self@[i as int].name == name@,
            r is None ==> !has_name(self@, name@),
    {
        let mut i: usize = 0;
        while i < self.adapters.len()
            invariant
                i <= self.adapters@.len(),
                forall|j: int| 0 <= j < i ==> self@[j].name != name@,
            decreases self.adapters@.len() - i,
        {
            if self.adapters[i].name == *name {
                return Some(i);
            }
            i = i + 1;
        }
        None
    }

    /// Attaches an adapter with an inbox of `capacity` events. Refused with
    /// `DuplicateName` when the name is already attached.
    pub fn attach(&mut self, name: String, capacity: usize) -> (r: Result<(), HubError>)
        requires
            old(self).wf(),
        ensures
            final(self).wf(),
            r is Err <==> has_name(old(self)@, name@),
            r is Err ==> final(self)@ == old(self)@,
            r is Ok ==> final(self)@ == old(self)@.push(
                AdapterView { name: name@, inbox: Seq::empty(), capacity: capacity as nat },
            ),
    {
        if self.find(&name).is_some() {
            return Err(HubError::DuplicateName);
        }
        let a = Adapter { name, inbox: Vec::new(), capacity };
        assert(a@.inbox =~= Seq::<EventView>::empty());
        self.adapters.push(a);
        assert(self@ =~= old(self)@.push(a@));
        Ok(())
    }

    /// Removes the adapter of that name, if attached; events published
    /// afterwards no longer reach it.
    pub fn detach(&mut self, name: &String)
        requires
            old(self).wf(),
        ensures
            final(self).wf(),
            !has_name(old(self)@, name@) ==> final(self)@ == old(self)@,
            has_name(old(self)@, name@) ==> exists|i: int|
                0 <= i < old(self)@.len() && old(self)@[i].name == name@ && final(self)@ == old(
                    self,
                )@.remove(i),
            !has_name(final(self)@, name@),
    {
        match self.find(name) {
            Some(i) => {
                self.adapters.remove(i);
                assert(self@ =~= old(self)@.remove(i as int));
            },
            None => {},
        }
    }

    /// Delivers `e` to every attached adapter but its origin. A sibling whose
    /// inbox is full misses it; the others still receive it.
    pub fn publish(&mut self, e: &BridgeEvent)
        requires
            old(self).wf(),
        ensures
            final(self).wf(),
            final(self)@ == published(old(self)@, e@),
    {
        let mut i: usize = 0;
        while i < self.adapters.len()
            invariant
                i <= self.adapters@.len(),
                self.adapters@.len() == old(self).adapters@.len(),
                self.wf(),
                forall|j: int| 0 <= j < i ==> #[trigger] self@[j] == deliver(old(self)@[j], e@),
                forall|j: int| i <= j < self@.len() ==> #[trigger] self@[j] == old(self)@[j],
            decreases self.adapters@.len() - i,
        {
            assert(self@[i as int] == self.adapters@[i as int]@);
            let ghost before = self@;
            let mut a = self.adapters.remove(i);
            assert(a@ == old(self)@[i as int]);
            if !(a.name == e.origin_adapter) && a.inbox.len() < a.capacity {
                let ghost prev = a.inbox@;
                a.inbox.push(e.copy());
                assert(a.inbox@ == prev.push(a.inbox@.last()));
                assert(a@.inbox =~= old(self)@[i as int].inbox.push(e@));
            }
            self.adapters.insert(i, a);
            assert(self@ =~= before.update(i as int, a@));
            assert(self@[i as int] == deliver(old(self)@[i as int], e@));
            i = i + 1;
        }
        assert(self@ =~= published(old(self)@, e@));
    }

    /// Takes the oldest event waiting for the adapter `name`.
    pub fn receive(&mut self, name: &String) -> (r: Option<BridgeEvent>)
        requires
            old(self).wf(),
        ensures
            final(self).wf(),
            r is None ==> final(self)@ == old(self)@,
            r is None <==> (forall|i: int|
                0 <= i < old(self)@.len() && #[trigger] old(self)@[i].name == name@
                    ==> old(self)@[i].inbox.len() == 0),
            r matches Some(e) ==> exists|i: int|
                0 <= i < old(self)@.len() && old(self)@[i].name == name@ && e@ == old(
                    self,
                )@[i].inbox[0] && final(self)@ == old(self)@.update(
                    i,
                    AdapterView { inbox: old(self)@[i].inbox.drop_first(), ..old(self)@[i] },
                ),
    {
        match self.find(name) {
            None => None,
            Some(i) => {
                if self.adapters[i].inbox.len() == 0 {
                    return None;
                }
                let mut a = self.adapters.remove(i);
                let e = a.inbox.remove(0);
                assert(a@.inbox =~= old(self)@[i as int].inbox.drop_first());
                self.adapters.insert(i, a);
                assert(self@ =~= old(self)@.update(
                    i as int,
                    AdapterView { inbox: old(self)@[i as int].inbox.drop_first(), ..old(self)@[i as int] },
                ));
                Some(e)
            },
        }
    }

    /// Number of events waiting for the adapter `name`; `None` when it is not attached.
    pub fn pending(&self, name: &String) -> (r: Option<usize>)
        ensures
            r is None <==> !has_name(self@, name@),
            r matches Some(n) ==> exists|i: int|
                0 <= i < self@.len() && self@[i].name == name@ && n == self@[i].inbox.len(),
    {
        match self.find(name) {
            None => None,
            Some(i) => Some(self.adapters[i].inbox.len()),
        }
    }
}

/// The authenticated clients, keyed by account id, filled once at startup and
/// read afterwards.
pub struct ClientRegistry<H> {
    clients: Vec<(i64, H)>,
}

impl<H> View for ClientRegistry<H> {
    type V = Seq<(i64, H)>;

    closed spec fn view(&self) -> Seq<(i64, H)> {
        self.clients@
    }
}

impl<H> ClientRegistry<H> {
    pub open spec fn ids(&self) -> Seq<i64> {
        self@.map_values(|p: (i64, H)| p.0)
    }

    pub open spec fn wf(&self) -> bool {
        forall|i: int, j: int|
            0 <= i < self@.len() && 0 <= j < self@.len() && i != j
                ==> #[trigger] self@[i].0 != #[trigger] self@[j].0
    }

    pub fn new() -> (r: ClientRegistry<H>)
        ensures
            r.wf(),
            r@.len() == 0,
    {
        ClientRegistry { clients: Vec::new() }
    }

    fn index_of(&self, id: i64) -> (r: Option<usize>)
        ensures
            r matches Some(i) ==> i < self@.len() && self@[i as int].0 == id && self.ids().contains(id),
            r is None ==> !self.ids().contains(id) && forall|j: int| 0 <= j < self@.len() ==> self@[j].0 != id,
    {
        let mut i: usize = 0;
        while i < self.clients.len()
            invariant
                i <= self.clients@.len(),
                forall|j: int| 0 <= j < i ==> self.clients@[j].0 != id,
            decreases self.clients@.len() - i,
        {
            if self.clients[i].0 == id {
                assert(self.ids()[i as int] == id);
                return Some(i);
            }
            i = i + 1;
        }
        assert(!self.ids().contains(id)) by {
            if self.ids().contains(id) {
                let k = choose|k: int| 0 <= k < self.ids().len() && self.ids()[k] == id;
                assert(self.clients@[k].0 == id);
            }
        }
        None
    }

    /// Registers the client of an account that passed authentication. Returns
    /// false, leaving the registry unchanged, when the account already has one.
    pub fn insert(&mut self, id: i64, client: H) -> (r: bool)
        requires
            old(self).wf(),
        ensures
            final(self).wf(),
            r == !old(self).ids().contains(id),
            r ==> final(self)@ == old(self)@.push((id, client)),
            !r ==> final(self)@ == old(self)@,
    {
        if self.index_of(id).is_some() {
            return false;
        }
        self.clients.push((id, client));
        true
    }

    /// The registered account ids, in registration order.
    pub fn account_ids(&self) -> (r: Vec<i64>)
        ensures
            r@ == self.ids(),
    {
        let mut r: Vec<i64> = Vec::new();
        let mut i: usize = 0;
        while i < self.clients.len()
            invariant
                i <= self.clients@.len(),
                r@ == self.ids().subrange(0, i as int),
            decreases self.clients@.len() - i,
        {
            r.push(self.clients[i].0);
            i = i + 1;
            assert(r@ =~= self.ids().subrange(0, i as int));
        }
        assert(self.ids().subrange(0, i as int) == self.ids());
        r
    }

    /// The client of account `id`, if it is registered.
    pub fn lookup_client(&self, id: i64) -> (r: Option<&H>)
        ensures
            r is Some <==> self.ids().contains(id),
            r matches Some(h) ==> exists|i: int|
                0 <= i < self@.len() && self@[i] == (id, *h),
    {
        match self.index_of(id) {
            None => None,
            Some(i) => Some(&self.clients[i].1),
        }
    }
}

} // verus!
